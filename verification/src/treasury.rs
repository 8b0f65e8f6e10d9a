//! Cash boxes, bank accounts and petty cash: one kind of treasury account,
//! the checks on saving one and on deactivating one, and the running
//! balance of an account's statement.
use vstd::prelude::*;
use crate::text::{blank, clean, is_blank, same_text, trim, trim_seq};

verus! {

broadcast use vstd::string::group_string_axioms;

/// A treasury account with its details and balance.
#[derive(Debug)]
pub struct TreasuryAccountRow {
    pub id: String,
    pub name: String,
    pub account_type: String,
    pub account_type_label: String,
    pub account_number: Option<String>,
    pub iban: Option<String>,
    pub card_number: Option<String>,
    pub branch_name: Option<String>,
    pub branch_code: Option<String>,
    pub holder_name: Option<String>,
    pub has_pos_terminal: bool,
    pub negative_policy: String,
    pub negative_policy_label: String,
    pub linked_account_id: Option<String>,
    pub linked_account_name: Option<String>,
    pub is_active: bool,
    /// Receipts less payments.
    pub balance: i64,
    pub inflow: i64,
    pub outflow: i64,
    pub transaction_count: i64,
}

/// The fields of the form that defines a treasury account.
#[derive(Debug)]
pub struct TreasuryAccountInput {
    pub id: Option<String>,
    pub name: String,
    pub account_type: String,
    pub account_number: Option<String>,
    pub iban: Option<String>,
    pub card_number: Option<String>,
    pub branch_name: Option<String>,
    pub branch_code: Option<String>,
    pub holder_name: Option<String>,
    pub has_pos_terminal: bool,
    pub negative_policy: Option<String>,
    pub linked_account_id: Option<String>,
    pub is_active: bool,
}

/// A negative-balance policy with its label and explanation.
#[derive(Debug)]
pub struct PolicyInfo {
    pub value: String,
    pub label: String,
    pub explanation: String,
}

/// Why a treasury account could not be saved or deactivated.
#[derive(Debug, Clone, Copy, PartialEq, Eq, Structural)]
pub enum TreasuryAccountError {
    /// TACC-001
    BadType,
    /// TACC-002
    MissingName,
    /// TACC-003
    BadPolicy,
    /// TACC-004
    BadIban,
    /// TACC-005
    BadCard,
    /// TACC-006
    BankDetailsOnNonBank,
    /// TACC-009
    NotFound,
    /// TACC-012: the account still holds this balance.
    NonZeroBalance(i64),
    /// TACC-013
    OpenChecks,
}

/// The kinds of treasury account.
pub open spec fn is_account_type(kind: Seq<char>) -> bool {
    kind == "cash"@ || kind == "bank"@ || kind == "petty_cash"@
}

/// The negative-balance policies.
pub open spec fn is_policy(p: Seq<char>) -> bool {
    p == "error"@ || p == "warn"@ || p == "ignore"@
}

/// The label of an account kind.
pub open spec fn type_label_of(kind: Seq<char>) -> Seq<char> {
    if kind == "cash"@ {
        "صندوق"@
    } else if kind == "bank"@ {
        "حساب بانکی"@
    } else if kind == "petty_cash"@ {
        "تنخواه"@
    } else {
        "نامشخص"@
    }
}

/// The label of a treasury account type.
pub fn type_label(kind: &str) -> (r: &'static str)
    ensures
        r@ == type_label_of(kind@),
{
    if same_text(kind, "cash") {
        "صندوق"
    } else if same_text(kind, "bank") {
        "حساب بانکی"
    } else if same_text(kind, "petty_cash") {
        "تنخواه"
    } else {
        "نامشخص"
    }
}

/// A new account is active unless the form says otherwise.
pub fn default_true() -> (r: bool)
    ensures
        r,
{
    true
}

fn account_type_ok(kind: &str) -> (r: bool)
    ensures
        r == is_account_type(kind@),
{
    same_text(kind, "cash") || same_text(kind, "bank") || same_text(kind, "petty_cash")
}

/// The kind filter of the account list: a blank or missing one lists every
/// kind; any other must be a known kind.
pub fn check_type_filter(kind: &Option<String>) -> (r: Result<(), TreasuryAccountError>)
    ensures
        r is Err <==> (kind matches Some(k) && !is_blank(k@) && !is_account_type(k@)),
        r is Err ==> r == Err::<(), TreasuryAccountError>(TreasuryAccountError::BadType),
{
    match kind {
        Some(k) => if !blank(k.as_str()) && !account_type_ok(k.as_str()) {
            Err(TreasuryAccountError::BadType)
        } else {
            Ok(())
        },
        None => Ok(()),
    }
}

/// What is stored of a checked form: the trimmed name, the policy and the
/// trimmed bank numbers.
#[derive(Debug)]
pub struct TreasuryAccountForm {
    pub name: String,
    pub negative_policy: String,
    pub iban: Option<String>,
    pub card_number: Option<String>,
}

/// An optional text, trimmed, with a blank one taken as missing.
pub open spec fn cleaned(value: Option<String>) -> Option<Seq<char>> {
    match value {
        Some(v) => if trim_seq(v@).len() == 0 {
            None
        } else {
            Some(trim_seq(v@))
        },
        None => None,
    }
}

/// The policy a form chooses: its own where it gives a non-blank one,
/// trimmed; else the default from the settings.
pub open spec fn chosen_policy(input: Option<String>, default_policy: Seq<char>) -> Seq<char> {
    match input {
        Some(p) => if trim_seq(p@).len() > 0 {
            trim_seq(p@)
        } else {
            default_policy
        },
        None => default_policy,
    }
}

/// The outcome of checking a treasury account form. `iban_valid` and
/// `card_valid` say whether the cleaned IBAN and card number pass their
/// check digits (mod-97 and Luhn); they matter only where those are given.
pub open spec fn treasury_form_check(
    input: TreasuryAccountInput,
    default_policy: Seq<char>,
    iban_valid: bool,
    card_valid: bool,
) -> Result<(), TreasuryAccountError> {
    let policy = chosen_policy(input.negative_policy, default_policy);
    if trim_seq(input.name@).len() == 0 {
        Err(TreasuryAccountError::MissingName)
    } else if !is_account_type(input.account_type@) {
        Err(TreasuryAccountError::BadType)
    } else if !is_policy(policy) {
        Err(TreasuryAccountError::BadPolicy)
    } else if cleaned(input.iban) is Some && !iban_valid {
        Err(TreasuryAccountError::BadIban)
    } else if cleaned(input.card_number) is Some && !card_valid {
        Err(TreasuryAccountError::BadCard)
    } else if input.account_type@ != "bank"@ && (cleaned(input.iban) is Some || input.branch_name is Some) {
        Err(TreasuryAccountError::BankDetailsOnNonBank)
    } else {
        Ok(())
    }
}

/// Checks a treasury account form: a name, a known kind, a known policy
/// (the settings' default where none is given), valid bank numbers, and bank
/// details only on a bank account. Gives what is stored.
pub fn check_treasury_account(
    input: &TreasuryAccountInput,
    default_policy: &str,
    iban_valid: bool,
    card_valid: bool,
) -> (r: Result<TreasuryAccountForm, TreasuryAccountError>)
    ensures
        match treasury_form_check(*input, default_policy@, iban_valid, card_valid) {
            Err(e) => r == Err::<TreasuryAccountForm, TreasuryAccountError>(e),
            Ok(()) => r matches Ok(f) && f.name@ == trim_seq(input.name@) && f.negative_policy@ == chosen_policy(
                input.negative_policy,
                default_policy@,
            ) && (match f.iban {
                Some(v) => cleaned(input.iban) == Some(v@),
                None => cleaned(input.iban) is None,
            }) && (match f.card_number {
                Some(v) => cleaned(input.card_number) == Some(v@),
                None => cleaned(input.card_number) is None,
            }),
        },
{
    let name = trim(input.name.as_str());
    if name.unicode_len() == 0 {
        return Err(TreasuryAccountError::MissingName);
    }
    if !account_type_ok(input.account_type.as_str()) {
        return Err(TreasuryAccountError::BadType);
    }
    let policy: &str = match &input.negative_policy {
        Some(p) => {
            let t = trim(p.as_str());
            if t.unicode_len() > 0 {
                t
            } else {
                default_policy
            }
        },
        None => default_policy,
    };
    if !(same_text(policy, "error") || same_text(policy, "warn") || same_text(policy, "ignore")) {
        return Err(TreasuryAccountError::BadPolicy);
    }
    let iban = clean(&input.iban);
    if iban.is_some() && !iban_valid {
        return Err(TreasuryAccountError::BadIban);
    }
    let card = clean(&input.card_number);
    if card.is_some() && !card_valid {
        return Err(TreasuryAccountError::BadCard);
    }
    if !same_text(input.account_type.as_str(), "bank") && (iban.is_some() || input.branch_name.is_some()) {
        return Err(TreasuryAccountError::BankDetailsOnNonBank);
    }
    Ok(TreasuryAccountForm {
        name: crate::text::owned(name),
        negative_policy: crate::text::owned(policy),
        iban,
        card_number: card,
    })
}

/// The permission that saving a treasury account needs: updating an
/// existing one or creating a new one.
pub fn save_permission(input: &TreasuryAccountInput) -> (r: &'static str)
    ensures
        input.id is Some ==> r@ == "treasury.account.update"@,
        input.id is None ==> r@ == "treasury.account.create"@,
{
    if input.id.is_some() {
        "treasury.account.update"
    } else {
        "treasury.account.create"
    }
}

/// A treasury account is deactivated only once its balance is zero and no
/// open cheque rests on it; deactivating never deletes its history.
pub fn check_treasury_deactivation(balance: i64, open_checks: i64) -> (r: Result<(), TreasuryAccountError>)
    ensures
        balance != 0 ==> r == Err::<(), TreasuryAccountError>(TreasuryAccountError::NonZeroBalance(balance)),
        balance == 0 && open_checks > 0 ==> r == Err::<(), TreasuryAccountError>(TreasuryAccountError::OpenChecks),
        balance == 0 && open_checks <= 0 ==> r is Ok,
{
    if balance != 0 {
        return Err(TreasuryAccountError::NonZeroBalance(balance));
    }
    if open_checks > 0 {
        return Err(TreasuryAccountError::OpenChecks);
    }
    Ok(())
}

/// Whether a treasury transaction of this type brings money in: receipts
/// and incoming transfers do; everything else takes money out.
pub open spec fn is_inflow(kind: Seq<char>) -> bool {
    kind == "receipt"@ || kind == "transfer_in"@
}

/// A transaction's effect on the account's balance.
pub open spec fn signed_amount(kind: Seq<char>, amount: i64) -> int {
    if is_inflow(kind) {
        amount as int
    } else {
        -(amount as int)
    }
}

/// The balance after the first `n` transactions of a statement.
pub open spec fn statement_balance(rows: Seq<(String, i64)>, n: int) -> int
    decreases n,
{
    if n <= 0 {
        0
    } else {
        statement_balance(rows, n - 1) + signed_amount(rows[n - 1].0@, rows[n - 1].1)
    }
}

/// The running balances of an account's statement, given each transaction's
/// type and amount in the statement's order: after each transaction, the
/// sum of inflows less outflows so far.
pub fn statement_balances(rows: &Vec<(String, i64)>) -> (r: Vec<i128>)
    requires
        rows@.len() <= 0x1000_0000_0000_0000,
    ensures
        r@.len() == rows@.len(),
        forall|i: int| 0 <= i < rows@.len() ==> #[trigger] r@[i] == statement_balance(rows@, i + 1),
{
    let mut out: Vec<i128> = Vec::new();
    let mut balance: i128 = 0;
    let bound: i128 = 0x8000_0000_0000_0000;
    let mut i: usize = 0;
    while i < rows.len()
        invariant
            0 <= i <= rows@.len(),
            rows@.len() <= 0x1000_0000_0000_0000,
            out@.len() == i,
            balance == statement_balance(rows@, i as int),
            -(i * bound) <= balance <= i * bound,
            bound == 0x8000_0000_0000_0000,
            forall|j: int| 0 <= j < i ==> #[trigger] out@[j] == statement_balance(rows@, j + 1),
        decreases rows@.len() - i,
    {
        let (kind, amount) = &rows[i];
        let inflow = same_text(kind.as_str(), "receipt") || same_text(kind.as_str(), "transfer_in");
        if inflow {
            balance = balance + *amount as i128;
        } else {
            balance = balance - *amount as i128;
        }
        out.push(balance);
        i = i + 1;
    }
    out
}

/// A transfer between two treasury accounts creates and destroys nothing:
/// what its outgoing half takes from one balance its incoming half adds to
/// the other.
pub proof fn lemma_transfer_conserves(amount: i64)
    ensures
        signed_amount("transfer_out"@, amount) + signed_amount("transfer_in"@, amount) == 0,
{
    reveal_strlit("transfer_out");
    reveal_strlit("transfer_in");
    reveal_strlit("receipt");
    assert("transfer_out"@.len() != "receipt"@.len());
    assert("transfer_out"@[9] != "transfer_in"@[9]);
}

} // verus!
