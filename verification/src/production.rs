//! Production receipts: materials used plus production costs make the cost
//! of what is produced. The receipt's entry moves value from raw materials
//! and expense accounts into finished goods; production makes no profit.
use vstd::prelude::*;
use crate::journal::{JournalLine, journal_line, line_is, debit_sum, credit_sum};
use crate::text::{int_text, same_text, decimal_text};

verus! {

broadcast use vstd::string::group_string_axioms;

/// A production cost charged to an expense account.
#[derive(Debug, Clone)]
pub struct ExpenseLine {
    pub account_id: String,
    pub title: String,
    pub amount: i64,
}

/// A production receipt as the list shows it.
#[derive(Debug)]
pub struct ProductionOrderRow {
    pub id: String,
    pub number: i64,
    pub production_date: String,
    pub warehouse_name: String,
    pub materials_total: i64,
    pub expenses_total: i64,
    pub total_cost: i64,
    pub status: String,
    pub description: Option<String>,
    pub journal_id: Option<String>,
    pub input_count: i64,
    pub output_count: i64,
}

/// A way of spreading cost over the products, with its explanation.
#[derive(Debug)]
pub struct AllocationInfo {
    pub value: String,
    pub label: String,
    pub explanation: String,
}

/// An account that production costs may be charged to.
#[derive(Debug)]
pub struct ExpenseAccountRow {
    pub id: String,
    pub code: String,
    pub name: String,
}

/// Why a production receipt could not be posted.
#[derive(Debug, Clone, Copy, PartialEq, Eq, Structural)]
pub enum ProductionError {
    /// PRD-001
    FormulaNotFound,
    /// PRD-015: the entry's debits and credits, which differ.
    Unbalanced(i128, i128),
}

/// The expenses, from the first `n`, that are above zero.
pub open spec fn positive_expenses(e: Seq<ExpenseLine>, n: int) -> Seq<ExpenseLine>
    decreases n,
{
    if n <= 0 {
        Seq::empty()
    } else if e[n - 1].amount > 0 {
        positive_expenses(e, n - 1).push(e[n - 1])
    } else {
        positive_expenses(e, n - 1)
    }
}

/// The sum of the amounts of `e`.
pub open spec fn expense_sum(e: Seq<ExpenseLine>) -> int
    decreases e.len(),
{
    if e.len() == 0 {
        0
    } else {
        expense_sum(e.drop_last()) + e.last().amount
    }
}

/// The lines of a production entry before its balance is checked: finished
/// goods debited with the total cost; raw materials credited with their
/// value, where above zero; each expense above zero credited to its own
/// account, in order.
pub open spec fn production_lines(total_cost: i64, materials_total: i64, expenses: Seq<ExpenseLine>, lines: Seq<JournalLine>) -> bool {
    let credits = positive_expenses(expenses, expenses.len() as int);
    let head = if materials_total > 0 {
        2int
    } else {
        1int
    };
    &&& lines.len() == head + credits.len()
    &&& line_is(lines[0], "acc-1320"@, total_cost as int, 0)
    &&& materials_total > 0 ==> line_is(lines[1], "acc-1310"@, 0, materials_total as int)
    &&& forall|k: int| 0 <= k < credits.len() ==> line_is(#[trigger] lines[head + k], credits[k].account_id@, 0, credits[k].amount as int)
}

proof fn lemma_credit_sum_push(lines: Seq<JournalLine>, l: JournalLine)
    ensures
        credit_sum(lines.push(l)) == credit_sum(lines) + l.credit,
        debit_sum(lines.push(l)) == debit_sum(lines) + l.debit,
{
    assert(lines.push(l).drop_last() =~= lines);
}

/// The entry that posts a production receipt; refused where its debits and
/// credits differ, that is where the total cost is not the materials plus
/// the positive expenses.
pub fn production_journal_lines(total_cost: i64, materials_total: i64, expenses: &Vec<ExpenseLine>) -> (r: Result<Vec<JournalLine>, ProductionError>)
    requires
        expenses@.len() <= 0x1000_0000_0000_0000,
    ensures
        match r {
            Ok(lines) => production_lines(total_cost, materials_total, expenses@, lines@)
                && debit_sum(lines@) == credit_sum(lines@),
            Err(e) => e == ProductionError::Unbalanced(
                total_cost as i128,
                ((if materials_total > 0 { materials_total as int } else { 0 }) + expense_sum(positive_expenses(expenses@, expenses@.len() as int))) as i128,
            ) && total_cost != (if materials_total > 0 { materials_total as int } else { 0 }) + expense_sum(positive_expenses(expenses@, expenses@.len() as int)),
        },
{
    let mut lines: Vec<JournalLine> = Vec::new();
    lines.push(journal_line("acc-1320", total_cost, 0));
    let mut credit: i128 = 0;
    if materials_total > 0 {
        lines.push(journal_line("acc-1310", 0, materials_total));
        credit = materials_total as i128;
    }
    let ghost head: int = if materials_total > 0 { 2 } else { 1 };
    proof {
        let e = Seq::<JournalLine>::empty();
        assert(debit_sum(e) == 0 && credit_sum(e) == 0);
        lemma_credit_sum_push(e, lines@[0]);
        assert(lines@.take(1) =~= e.push(lines@[0]));
        if materials_total > 0 {
            lemma_credit_sum_push(lines@.take(1), lines@[1]);
            assert(lines@ =~= lines@.take(1).push(lines@[1]));
        } else {
            assert(lines@ =~= lines@.take(1));
        }
    }
    let bound: i128 = 0x8000_0000_0000_0000;
    let mut i: usize = 0;
    while i < expenses.len()
        invariant
            0 <= i <= expenses@.len(),
            expenses@.len() <= 0x1000_0000_0000_0000,
            bound == 0x8000_0000_0000_0000,
            head == (if materials_total > 0 { 2int } else { 1int }),
            lines@.len() == head + positive_expenses(expenses@, i as int).len(),
            line_is(lines@[0], "acc-1320"@, total_cost as int, 0),
            materials_total > 0 ==> line_is(lines@[1], "acc-1310"@, 0, materials_total as int),
            forall|k: int| 0 <= k < positive_expenses(expenses@, i as int).len() ==> line_is(
                #[trigger] lines@[head + k],
                positive_expenses(expenses@, i as int)[k].account_id@,
                0,
                positive_expenses(expenses@, i as int)[k].amount as int,
            ),
            debit_sum(lines@) == total_cost,
            credit_sum(lines@) == credit,
            credit == (if materials_total > 0 { materials_total as int } else { 0 }) + expense_sum(positive_expenses(expenses@, i as int)),
            0 <= credit <= (i + 1) * bound,
        decreases expenses@.len() - i,
    {
        let e = &expenses[i];
        let ghost before = positive_expenses(expenses@, i as int);
        if e.amount > 0 {
            let l = journal_line(e.account_id.as_str(), 0, e.amount);
            proof {
                lemma_credit_sum_push(lines@, l);
                let after = positive_expenses(expenses@, i + 1);
                assert(after == before.push(expenses@[i as int]));
                assert(after.drop_last() =~= before);
            }
            lines.push(l);
            credit = credit + e.amount as i128;
        }
        i = i + 1;
    }
    let debit: i128 = total_cost as i128;
    if debit != credit {
        return Err(ProductionError::Unbalanced(debit, credit));
    }
    Ok(lines)
}

/// The description of a production receipt: its own, else its number.
pub fn production_description(description: &Option<String>, number: i64) -> (r: String)
    ensures
        description matches Some(d) ==> r@ == d@,
        description is None ==> r@ == "رسید تولید شماره "@ + decimal_text(number as int),
{
    match description {
        Some(d) => d.clone(),
        None => String::from_str("رسید تولید شماره ").concat(int_text(number).as_str()),
    }
}

/// What removing a production formula does.
#[derive(Debug, Clone, Copy, PartialEq, Eq, Structural)]
pub enum FormulaRemoval {
    /// Receipts refer to it: it is only deactivated, so they keep their reference.
    Deactivate,
    /// Nothing refers to it: it is deleted.
    Delete,
}

/// Removing a production formula: deactivated where receipts use it,
/// deleted where none does, refused where it does not exist.
pub fn formula_removal(used_by: i64, exists: bool) -> (r: Result<FormulaRemoval, ProductionError>)
    ensures
        used_by > 0 ==> r == Ok::<FormulaRemoval, ProductionError>(FormulaRemoval::Deactivate),
        used_by <= 0 && exists ==> r == Ok::<FormulaRemoval, ProductionError>(FormulaRemoval::Delete),
        used_by <= 0 && !exists ==> r == Err::<FormulaRemoval, ProductionError>(ProductionError::FormulaNotFound),
{
    if used_by > 0 {
        Ok(FormulaRemoval::Deactivate)
    } else if exists {
        Ok(FormulaRemoval::Delete)
    } else {
        Err(ProductionError::FormulaNotFound)
    }
}

} // verus!
