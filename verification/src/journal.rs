//! Journal entries: the rules a set of lines must meet before it is stored,
//! reversal, and the lines that the host posts on its own for invoices,
//! settlements, cheques and treasury movements.
use vstd::prelude::*;
use crate::text::{blank, is_blank, same_text, text_le, text_le_exec};

verus! {

/// One line of a journal entry. Exactly one of `debit` and `credit` is
/// positive on a valid line.
#[derive(Debug)]
pub struct JournalLine {
    pub account_id: String,
    pub debit: i64,
    pub credit: i64,
}

/// Why a journal entry was refused.
#[derive(Debug, Clone, Copy, PartialEq, Eq, Structural)]
pub enum JournalError {
    /// An entry without lines.
    NoLines,
    /// The debits and credits differ, or they are not above zero.
    Unbalanced,
    /// The line at this index has no single positive side.
    InvalidLine(usize),
    /// Only a draft or validated entry can be posted.
    NotPostable,
    /// Only a posted entry can be reversed.
    NotReversible,
    /// The amount of an entry is not above zero.
    AmountNotPositive,
    /// Both sides name the same account with the same subsidiary.
    SameAccount,
}

/// The sum of the debits of `lines`.
pub open spec fn debit_sum(lines: Seq<JournalLine>) -> int
    decreases lines.len(),
{
    if lines.len() == 0 {
        0
    } else {
        debit_sum(lines.drop_last()) + lines.last().debit
    }
}

/// The sum of the credits of `lines`.
pub open spec fn credit_sum(lines: Seq<JournalLine>) -> int
    decreases lines.len(),
{
    if lines.len() == 0 {
        0
    } else {
        credit_sum(lines.drop_last()) + lines.last().credit
    }
}

/// A line with exactly one positive side and nothing on the other.
pub open spec fn line_is_valid(l: JournalLine) -> bool {
    (l.debit > 0 && l.credit == 0) || (l.debit == 0 && l.credit > 0)
}

/// The index of the first invalid line at or after `i`.
pub open spec fn first_invalid_from(lines: Seq<JournalLine>, i: int) -> Option<int>
    decreases lines.len() - i,
{
    if i < 0 || i >= lines.len() {
        None
    } else if !line_is_valid(lines[i]) {
        Some(i)
    } else {
        first_invalid_from(lines, i + 1)
    }
}

/// Whether a journal entry with these lines may be stored: it has lines,
/// its debits equal its credits and are above zero, and every line has a
/// single positive side.
pub open spec fn journal_check(lines: Seq<JournalLine>) -> Result<(), JournalError> {
    if lines.len() == 0 {
        Err(JournalError::NoLines)
    } else if !(debit_sum(lines) > 0 && debit_sum(lines) == credit_sum(lines)) {
        Err(JournalError::Unbalanced)
    } else {
        match first_invalid_from(lines, 0) {
            Some(i) => Err(JournalError::InvalidLine(i as usize)),
            None => Ok(()),
        }
    }
}

proof fn lemma_sums_step(lines: Seq<JournalLine>, i: int)
    requires
        0 <= i < lines.len(),
    ensures
        debit_sum(lines.take(i + 1)) == debit_sum(lines.take(i)) + lines[i].debit,
        credit_sum(lines.take(i + 1)) == credit_sum(lines.take(i)) + lines[i].credit,
{
    assert(lines.take(i + 1).drop_last() =~= lines.take(i));
}

/// The debit and credit totals of `lines`, computed exactly.
pub fn line_totals(lines: &Vec<JournalLine>) -> (r: (i128, i128))
    ensures
        r.0 == debit_sum(lines@),
        r.1 == credit_sum(lines@),
{
    let mut d: i128 = 0;
    let mut c: i128 = 0;
    let mut i: usize = 0;
    let bound: i128 = 0x8000_0000_0000_0000;
    while i < lines.len()
        invariant
            0 <= i <= lines@.len(),
            d == debit_sum(lines@.take(i as int)),
            c == credit_sum(lines@.take(i as int)),
            -(i * bound) <= d <= i * bound,
            -(i * bound) <= c <= i * bound,
            bound == 0x8000_0000_0000_0000,
        decreases lines@.len() - i,
    {
        proof {
            lemma_sums_step(lines@, i as int);
        }
        d = d + lines[i].debit as i128;
        c = c + lines[i].credit as i128;
        i = i + 1;
    }
    proof {
        assert(lines@.take(lines@.len() as int) =~= lines@);
    }
    (d, c)
}

/// Checks the lines of a journal entry before it is stored: lines must
/// exist, balance at a positive total, and each have one positive side.
pub fn check_journal_lines(lines: &Vec<JournalLine>) -> (r: Result<(), JournalError>)
    ensures
        r == journal_check(lines@),
{
    if lines.len() == 0 {
        return Err(JournalError::NoLines);
    }
    let (d, c) = line_totals(lines);
    if d <= 0 || d != c {
        return Err(JournalError::Unbalanced);
    }
    let mut i: usize = 0;
    while i < lines.len()
        invariant
            0 <= i <= lines@.len(),
            first_invalid_from(lines@, 0) == first_invalid_from(lines@, i as int),
            lines@.len() > 0,
            debit_sum(lines@) > 0 && debit_sum(lines@) == credit_sum(lines@),
        decreases lines@.len() - i,
    {
        let l = &lines[i];
        if !((l.debit > 0 && l.credit == 0) || (l.debit == 0 && l.credit > 0)) {
            return Err(JournalError::InvalidLine(i));
        }
        i = i + 1;
    }
    Ok(())
}

/// A line with its sides exchanged.
pub open spec fn swapped(l: JournalLine) -> JournalLine {
    JournalLine { account_id: l.account_id, debit: l.credit, credit: l.debit }
}

/// The lines of the entry that undoes `lines`: every debit becomes a
/// credit on the same account, and the other way round.
pub open spec fn reversed_lines(lines: Seq<JournalLine>) -> Seq<JournalLine> {
    lines.map_values(|l: JournalLine| swapped(l))
}

/// The lines of a reversing entry, in the same order.
pub fn reverse_lines(lines: &Vec<JournalLine>) -> (r: Vec<JournalLine>)
    ensures
        r@ == reversed_lines(lines@),
{
    let mut out: Vec<JournalLine> = Vec::new();
    let mut i: usize = 0;
    while i < lines.len()
        invariant
            0 <= i <= lines@.len(),
            out@ == reversed_lines(lines@.take(i as int)),
        decreases lines@.len() - i,
    {
        let l = &lines[i];
        out.push(JournalLine { account_id: l.account_id.clone(), debit: l.credit, credit: l.debit });
        proof {
            assert(reversed_lines(lines@.take(i + 1)) =~= reversed_lines(lines@.take(i as int)).push(
                swapped(lines@[i as int]),
            ));
        }
        i = i + 1;
    }
    proof {
        assert(lines@.take(lines@.len() as int) =~= lines@);
    }
    out
}

/// Reversing twice gives back the original lines.
pub proof fn lemma_reverse_involutive(lines: Seq<JournalLine>)
    ensures
        reversed_lines(reversed_lines(lines)) == lines,
{
    assert(reversed_lines(reversed_lines(lines)) =~= lines);
}

proof fn lemma_reversed_sums(lines: Seq<JournalLine>)
    ensures
        debit_sum(reversed_lines(lines)) == credit_sum(lines),
        credit_sum(reversed_lines(lines)) == debit_sum(lines),
    decreases lines.len(),
{
    if lines.len() > 0 {
        lemma_reversed_sums(lines.drop_last());
        assert(reversed_lines(lines).drop_last() =~= reversed_lines(lines.drop_last()));
    }
}

proof fn lemma_reversed_first_invalid(lines: Seq<JournalLine>, i: int)
    ensures
        first_invalid_from(reversed_lines(lines), i) == first_invalid_from(lines, i),
    decreases lines.len() - i,
{
    if 0 <= i < lines.len() {
        lemma_reversed_first_invalid(lines, i + 1);
    }
}

/// The reversing entry of a journal entry meets the rules exactly when the
/// entry does: same lines count, equal totals, the same invalid line.
pub proof fn lemma_reverse_keeps_check(lines: Seq<JournalLine>)
    ensures
        journal_check(reversed_lines(lines)) == journal_check(lines),
        debit_sum(reversed_lines(lines)) == credit_sum(lines),
        credit_sum(reversed_lines(lines)) == debit_sum(lines),
{
    lemma_reversed_sums(lines);
    lemma_reversed_first_invalid(lines, 0);
}

/// What the lines move on one account: its debits less its credits.
pub open spec fn account_net(lines: Seq<JournalLine>, account: Seq<char>) -> int
    decreases lines.len(),
{
    if lines.len() == 0 {
        0
    } else {
        account_net(lines.drop_last(), account) + if lines.last().account_id@ == account {
            lines.last().debit - lines.last().credit
        } else {
            0
        }
    }
}

proof fn lemma_account_net_concat(a: Seq<JournalLine>, b: Seq<JournalLine>, account: Seq<char>)
    ensures
        account_net(a + b, account) == account_net(a, account) + account_net(b, account),
    decreases b.len(),
{
    if b.len() == 0 {
        assert(a + b =~= a);
    } else {
        lemma_account_net_concat(a, b.drop_last(), account);
        assert((a + b).drop_last() =~= a + b.drop_last());
    }
}

proof fn lemma_reversed_net(lines: Seq<JournalLine>, account: Seq<char>)
    ensures
        account_net(reversed_lines(lines), account) == -account_net(lines, account),
    decreases lines.len(),
{
    if lines.len() > 0 {
        lemma_reversed_net(lines.drop_last(), account);
        assert(reversed_lines(lines).drop_last() =~= reversed_lines(lines.drop_last()));
    }
}

/// An entry together with its reversal leaves every account where it was.
pub proof fn lemma_reversal_cancels(lines: Seq<JournalLine>, account: Seq<char>)
    ensures
        account_net(lines + reversed_lines(lines), account) == 0,
{
    lemma_account_net_concat(lines, reversed_lines(lines), account);
    lemma_reversed_net(lines, account);
}

/// Whether an entry in this status can be posted: a draft or a validated one.
pub fn check_postable(status: &str) -> (r: Result<(), JournalError>)
    ensures
        r is Ok <==> (status@ == "draft"@ || status@ == "validated"@),
        r is Err ==> r == Err::<(), JournalError>(JournalError::NotPostable),
{
    if crate::text::same_text(status, "draft") || crate::text::same_text(status, "validated") {
        Ok(())
    } else {
        Err(JournalError::NotPostable)
    }
}

/// Whether stored totals allow posting: equal and above zero.
pub fn check_balanced_totals(debit: i64, credit: i64) -> (r: Result<(), JournalError>)
    ensures
        r is Ok <==> (debit > 0 && debit == credit),
        r is Err ==> r == Err::<(), JournalError>(JournalError::Unbalanced),
{
    if debit <= 0 || debit != credit {
        Err(JournalError::Unbalanced)
    } else {
        Ok(())
    }
}

/// Whether an entry in this status can be reversed: only a posted one.
pub fn check_reversible(status: &str) -> (r: Result<(), JournalError>)
    ensures
        r is Ok <==> status@ == "posted"@,
        r is Err ==> r == Err::<(), JournalError>(JournalError::NotReversible),
{
    if crate::text::same_text(status, "posted") {
        Ok(())
    } else {
        Err(JournalError::NotReversible)
    }
}


/// `l` is a line on `account` with these sides.
pub open spec fn line_is(l: JournalLine, account: Seq<char>, debit: int, credit: int) -> bool {
    l.account_id@ == account && l.debit == debit && l.credit == credit
}

/// A journal line on `account`.
pub fn journal_line(account: &str, debit: i64, credit: i64) -> (r: JournalLine)
    ensures
        line_is(r, account@, debit as int, credit as int),
{
    JournalLine { account_id: String::from_str(account), debit, credit }
}

/// A two-line entry: `amount` debited to one account, credited to another.
pub open spec fn two_lines(
    lines: Seq<JournalLine>,
    debit_account: Seq<char>,
    credit_account: Seq<char>,
    amount: int,
) -> bool {
    &&& lines.len() == 2
    &&& line_is(lines[0], debit_account, amount, 0)
    &&& line_is(lines[1], credit_account, 0, amount)
}

proof fn lemma_pair_sums(lines: Seq<JournalLine>)
    requires
        lines.len() == 2,
    ensures
        debit_sum(lines) == lines[0].debit + lines[1].debit,
        credit_sum(lines) == lines[0].credit + lines[1].credit,
{
    let e = lines.drop_last().drop_last();
    assert(e =~= Seq::<JournalLine>::empty());
    assert(debit_sum(e) == 0);
    assert(credit_sum(e) == 0);
    assert(debit_sum(lines.drop_last()) == lines[0].debit);
    assert(credit_sum(lines.drop_last()) == lines[0].credit);
}

/// A two-line entry is balanced: its debits equal its credits.
pub proof fn lemma_two_lines_balanced(lines: Seq<JournalLine>, d: Seq<char>, c: Seq<char>, amount: int)
    requires
        two_lines(lines, d, c, amount),
    ensures
        debit_sum(lines) == amount,
        credit_sum(lines) == amount,
{
    lemma_pair_sums(lines);
}

/// A two-line entry of a positive amount, such as an invoice's, is one the
/// journal accepts: it balances and each of its lines has a single positive
/// side.
pub proof fn lemma_two_line_entry_valid(lines: Seq<JournalLine>, d: Seq<char>, c: Seq<char>, amount: int)
    requires
        two_lines(lines, d, c, amount),
        amount > 0,
    ensures
        journal_check(lines) == Ok::<(), JournalError>(()),
{
    lemma_pair_sums(lines);
    reveal_with_fuel(first_invalid_from, 3);
    assert(line_is_valid(lines[0]));
    assert(line_is_valid(lines[1]));
}

fn two_line_entry(debit_account: &str, credit_account: &str, amount: i64) -> (r: Vec<JournalLine>)
    ensures
        two_lines(r@, debit_account@, credit_account@, amount as int),
{
    let mut v: Vec<JournalLine> = Vec::new();
    v.push(journal_line(debit_account, amount, 0));
    v.push(journal_line(credit_account, 0, amount));
    v
}

/// The entry that posts an invoice of `total`: a sale debits receivables and
/// credits sales; a purchase debits purchases and credits payables.
pub fn invoice_journal_lines(sale: bool, total: i64) -> (r: Vec<JournalLine>)
    ensures
        sale ==> two_lines(r@, "acc-1201"@, "acc-4100"@, total as int),
        !sale ==> two_lines(r@, "acc-5100"@, "acc-2101"@, total as int),
{
    if sale {
        two_line_entry("acc-1201", "acc-4100", total)
    } else {
        two_line_entry("acc-5100", "acc-2101", total)
    }
}

/// How much of an invoice is paid after a settlement.
#[derive(Debug, Clone, Copy, PartialEq, Eq, Structural)]
pub enum PaymentStatus {
    Paid,
    Partial,
}

/// Why a settlement was refused.
#[derive(Debug, Clone, Copy, PartialEq, Eq, Structural)]
pub enum SettlementError {
    /// The amount is not above zero.
    AmountNotPositive,
    /// Nothing remains to be settled.
    FullySettled,
    /// The amount is above what remains, which is given.
    ExceedsRemaining(i128),
}

/// A settlement amount must be above zero; this is checked before anything
/// is read.
pub fn check_settlement_amount(amount: i64) -> (r: Result<(), SettlementError>)
    ensures
        r is Ok <==> amount > 0,
        r is Err ==> r == Err::<(), SettlementError>(SettlementError::AmountNotPositive),
{
    if amount <= 0 {
        Err(SettlementError::AmountNotPositive)
    } else {
        Ok(())
    }
}

/// The outcome of settling `amount` of an invoice of `total` of which
/// `settled` is already settled: refused where nothing remains or the amount
/// is above what remains, else paid where it settles the rest and partial
/// otherwise. A settlement therefore never takes an invoice beyond its total.
pub fn settlement_outcome(total: i64, settled: i64, amount: i64) -> (r: Result<PaymentStatus, SettlementError>)
    ensures
        total - settled <= 0 ==> r == Err::<PaymentStatus, SettlementError>(SettlementError::FullySettled),
        total - settled > 0 && amount > total - settled ==> r == Err::<PaymentStatus, SettlementError>(
            SettlementError::ExceedsRemaining((total - settled) as i128),
        ),
        total - settled > 0 && amount == total - settled ==> r == Ok::<PaymentStatus, SettlementError>(PaymentStatus::Paid),
        total - settled > 0 && amount < total - settled ==> r == Ok::<PaymentStatus, SettlementError>(PaymentStatus::Partial),
        r is Ok ==> settled + amount <= total,
{
    let remaining: i128 = total as i128 - settled as i128;
    if remaining <= 0 {
        return Err(SettlementError::FullySettled);
    }
    if amount as i128 > remaining {
        return Err(SettlementError::ExceedsRemaining(remaining));
    }
    if amount as i128 == remaining {
        Ok(PaymentStatus::Paid)
    } else {
        Ok(PaymentStatus::Partial)
    }
}

proof fn lemma_pair_net(lines: Seq<JournalLine>, account: Seq<char>)
    requires
        lines.len() == 2,
    ensures
        account_net(lines, account) == (if lines[0].account_id@ == account {
            lines[0].debit - lines[0].credit
        } else {
            0
        }) + (if lines[1].account_id@ == account {
            lines[1].debit - lines[1].credit
        } else {
            0
        }),
{
    reveal_with_fuel(account_net, 3);
    assert(lines.drop_last().drop_last() =~= Seq::<JournalLine>::empty());
    assert(lines.drop_last().last() == lines[0]);
}

/// Posting an invoice raises what the party owes on it by its total, and a
/// settlement lowers it by its amount: once the settlements reach the total
/// the party owes nothing on the invoice. For a sale the party's account is
/// receivables, owed to the company; for a purchase, payables, owed by it.
pub proof fn lemma_invoice_settled(
    sale: bool,
    invoice: Seq<JournalLine>,
    settlement: Seq<JournalLine>,
    total: int,
    amount: int,
)
    requires
        sale ==> two_lines(invoice, "acc-1201"@, "acc-4100"@, total),
        !sale ==> two_lines(invoice, "acc-5100"@, "acc-2101"@, total),
        settlement.len() == 2,
        sale ==> line_is(settlement[0], "acc-1101"@, amount, 0) && line_is(settlement[1], "acc-1201"@, 0, amount),
        !sale ==> line_is(settlement[0], "acc-1101"@, 0, amount) && line_is(settlement[1], "acc-2101"@, amount, 0),
    ensures
        sale ==> account_net(invoice + settlement, "acc-1201"@) == total - amount,
        !sale ==> account_net(invoice + settlement, "acc-2101"@) == amount - total,
{
    reveal_strlit("acc-1201");
    reveal_strlit("acc-4100");
    reveal_strlit("acc-5100");
    reveal_strlit("acc-2101");
    reveal_strlit("acc-1101");
    assert("acc-1201"@[4] != "acc-4100"@[4]);
    assert("acc-1201"@[5] != "acc-1101"@[5]);
    assert("acc-2101"@[4] != "acc-5100"@[4]);
    assert("acc-2101"@[4] != "acc-1101"@[4]);
    let party = if sale {
        "acc-1201"@
    } else {
        "acc-2101"@
    };
    lemma_account_net_concat(invoice, settlement, party);
    lemma_pair_net(invoice, party);
    lemma_pair_net(settlement, party);
}

/// The entry of a settlement: a receipt debits cash and credits
/// receivables; a payment debits payables and credits cash.
pub fn settlement_lines(sale: bool, amount: i64) -> (r: Vec<JournalLine>)
    ensures
        r@.len() == 2,
        sale ==> line_is(r@[0], "acc-1101"@, amount as int, 0) && line_is(r@[1], "acc-1201"@, 0, amount as int),
        !sale ==> line_is(r@[0], "acc-1101"@, 0, amount as int) && line_is(r@[1], "acc-2101"@, amount as int, 0),
{
    let mut v: Vec<JournalLine> = Vec::new();
    if sale {
        v.push(journal_line("acc-1101", amount, 0));
        v.push(journal_line("acc-1201", 0, amount));
    } else {
        v.push(journal_line("acc-1101", 0, amount));
        v.push(journal_line("acc-2101", amount, 0));
    }
    v
}

/// Every settlement entry is balanced.
pub proof fn lemma_settlement_balanced(sale: bool, lines: Seq<JournalLine>, amount: int)
    requires
        lines.len() == 2,
        sale ==> line_is(lines[0], "acc-1101"@, amount, 0) && line_is(lines[1], "acc-1201"@, 0, amount),
        !sale ==> line_is(lines[0], "acc-1101"@, 0, amount) && line_is(lines[1], "acc-2101"@, amount, 0),
    ensures
        debit_sum(lines) == amount,
        credit_sum(lines) == amount,
{
    lemma_pair_sums(lines);
}

/// What a cheque's change of status does to the treasury.
#[derive(Debug, Clone, Copy, PartialEq, Eq, Structural)]
pub enum TreasuryEffect {
    Increase,
    Decrease,
    Unchanged,
}

/// What is recorded when a cheque changes status.
#[derive(Debug, Clone, Copy, PartialEq, Eq, Structural)]
pub enum CheckAction {
    /// The cheque is cleared through the treasury: a clearing entry and a
    /// treasury movement are recorded.
    Settle,
    /// A cleared cheque bounced: its clearing entry is reversed.
    Reverse,
    /// Only the status changes.
    StatusOnly,
}

/// The action of a cheque's change of status: one that moves money and has
/// no clearing entry yet settles; a bounce of a cheque with a clearing
/// entry reverses it; anything else only changes the status.
pub fn check_action(effect: TreasuryEffect, has_clearing_journal: bool, target_is_bounced: bool) -> (r: CheckAction)
    ensures
        r == (if effect != TreasuryEffect::Unchanged && !has_clearing_journal {
            CheckAction::Settle
        } else if target_is_bounced && has_clearing_journal {
            CheckAction::Reverse
        } else {
            CheckAction::StatusOnly
        }),
{
    let settles = match effect {
        TreasuryEffect::Unchanged => false,
        _ => true,
    } && !has_clearing_journal;
    if settles {
        CheckAction::Settle
    } else if target_is_bounced && has_clearing_journal {
        CheckAction::Reverse
    } else {
        CheckAction::StatusOnly
    }
}

/// The clearing entry of a cheque of `amount`: a received cheque debits the
/// treasury's account and credits receivables; an issued one debits
/// payables and credits the treasury's account.
pub fn check_clearing_lines(received: bool, treasury_account: &str, amount: i64) -> (r: Vec<JournalLine>)
    ensures
        received ==> two_lines(r@, treasury_account@, "acc-1201"@, amount as int),
        !received ==> two_lines(r@, "acc-2101"@, treasury_account@, amount as int),
{
    if received {
        two_line_entry(treasury_account, "acc-1201", amount)
    } else {
        two_line_entry("acc-2101", treasury_account, amount)
    }
}

/// The kind of treasury movement a cheque records: clearing a received
/// cheque is a receipt and an issued one a payment; a bounce is the
/// opposite movement.
pub fn check_treasury_type(received: bool, bounce: bool) -> (r: &'static str)
    ensures
        r@ == (if received != bounce {
            "receipt"@
        } else {
            "payment"@
        }),
{
    if received != bounce {
        "receipt"
    } else {
        "payment"
    }
}


/// Whether two optional texts are equal.
fn same_option(a: &Option<String>, b: &Option<String>) -> (r: bool)
    ensures
        r == (match (a, b) {
            (Some(x), Some(y)) => x@ == y@,
            (None, None) => true,
            _ => false,
        }),
{
    match (a, b) {
        (Some(x), Some(y)) => same_text(x.as_str(), y.as_str()),
        (None, None) => true,
        _ => false,
    }
}

/// The entry of the single-line journal form: `amount` from the debit side
/// to the credit side. Refused where the amount is not above zero, or where
/// both sides name the same account with the same subsidiary.
pub fn single_line_entry(
    amount: i64,
    debit_account: &str,
    debit_subsidiary: &Option<String>,
    credit_account: &str,
    credit_subsidiary: &Option<String>,
) -> (r: Result<Vec<JournalLine>, JournalError>)
    ensures
        amount <= 0 ==> (r matches Err(e) && e == JournalError::AmountNotPositive),
        amount > 0 && debit_account@ == credit_account@ && (match (debit_subsidiary, credit_subsidiary) {
            (Some(x), Some(y)) => x@ == y@,
            (None, None) => true,
            _ => false,
        }) ==> (r matches Err(e) && e == JournalError::SameAccount),
        r matches Ok(lines) ==> two_lines(lines@, debit_account@, credit_account@, amount as int),
        r is Err ==> amount <= 0 || (debit_account@ == credit_account@ && (match (debit_subsidiary, credit_subsidiary) {
            (Some(x), Some(y)) => x@ == y@,
            (None, None) => true,
            _ => false,
        })),
{
    if amount <= 0 {
        return Err(JournalError::AmountNotPositive);
    }
    if same_text(debit_account, credit_account) && same_option(debit_subsidiary, credit_subsidiary) {
        return Err(JournalError::SameAccount);
    }
    Ok(two_line_entry(debit_account, credit_account, amount))
}

/// A dimension as the form sends it: an empty text means none.
pub fn nonempty(value: Option<String>) -> (r: Option<String>)
    ensures
        r == (match value {
            Some(v) => if v@.len() == 0 {
                None
            } else {
                Some(v)
            },
            None => None,
        }),
{
    match value {
        Some(v) => if v.as_str().is_empty() {
            None
        } else {
            Some(v)
        },
        None => None,
    }
}

/// The two kinds of cheque.
#[derive(Debug, Clone, Copy, PartialEq, Eq, Structural)]
pub enum CheckKind {
    Received,
    Issued,
}

/// Why a cheque was refused.
#[derive(Debug, Clone, Copy, PartialEq, Eq, Structural)]
pub enum CheckError {
    InvalidType,
    MissingNumber,
    AmountNotPositive,
    DueBeforeIssue,
}

/// The checks on a new cheque that need nothing stored: its kind is
/// `received` or `issued`, its number is not blank, its amount is above zero.
pub fn check_input(check_type: &str, check_number: &str, amount: i64) -> (r: Result<CheckKind, CheckError>)
    ensures
        !(check_type@ == "received"@ || check_type@ == "issued"@) ==> r == Err::<CheckKind, CheckError>(CheckError::InvalidType),
        (check_type@ == "received"@ || check_type@ == "issued"@) && is_blank(check_number@) ==> r == Err::<CheckKind, CheckError>(CheckError::MissingNumber),
        (check_type@ == "received"@ || check_type@ == "issued"@) && !is_blank(check_number@) && amount <= 0 ==> r == Err::<CheckKind, CheckError>(CheckError::AmountNotPositive),
        (check_type@ == "received"@ || check_type@ == "issued"@) && !is_blank(check_number@) && amount > 0 ==> r == Ok::<CheckKind, CheckError>(if check_type@ == "issued"@ {
            CheckKind::Issued
        } else {
            CheckKind::Received
        }),
{
    let received = same_text(check_type, "received");
    let issued = same_text(check_type, "issued");
    if !(received || issued) {
        return Err(CheckError::InvalidType);
    }
    if blank(check_number) {
        return Err(CheckError::MissingNumber);
    }
    if amount <= 0 {
        return Err(CheckError::AmountNotPositive);
    }
    if issued {
        Ok(CheckKind::Issued)
    } else {
        Ok(CheckKind::Received)
    }
}

/// A cheque's due date may not come before its issue date (dates compare as
/// texts in `YYYY/MM/DD` form).
pub fn check_dates(issue_date: &str, due_date: &str) -> (r: Result<(), CheckError>)
    ensures
        r is Ok <==> text_le(issue_date@, due_date@),
        r is Err ==> r == Err::<(), CheckError>(CheckError::DueBeforeIssue),
{
    if text_le_exec(issue_date, due_date) {
        Ok(())
    } else {
        Err(CheckError::DueBeforeIssue)
    }
}

/// The direction of a manual treasury movement.
#[derive(Debug, Clone, Copy, PartialEq, Eq, Structural)]
pub enum TreasuryDirection {
    Receipt,
    Payment,
}

/// Why a treasury movement was refused.
#[derive(Debug, Clone, Copy, PartialEq, Eq, Structural)]
pub enum TreasuryError {
    InvalidType,
    AmountNotPositive,
    MissingDescription,
    SameAccount,
}

/// The checks on a manual treasury movement that need nothing stored: its
/// type is `receipt` or `payment`, its amount above zero, its description
/// not blank.
pub fn treasury_movement_input(kind: &str, amount: i64, description: &str) -> (r: Result<TreasuryDirection, TreasuryError>)
    ensures
        !(kind@ == "receipt"@ || kind@ == "payment"@) ==> r == Err::<TreasuryDirection, TreasuryError>(TreasuryError::InvalidType),
        (kind@ == "receipt"@ || kind@ == "payment"@) && amount <= 0 ==> r == Err::<TreasuryDirection, TreasuryError>(TreasuryError::AmountNotPositive),
        (kind@ == "receipt"@ || kind@ == "payment"@) && amount > 0 && is_blank(description@) ==> r == Err::<TreasuryDirection, TreasuryError>(TreasuryError::MissingDescription),
        (kind@ == "receipt"@ || kind@ == "payment"@) && amount > 0 && !is_blank(description@) ==> r == Ok::<TreasuryDirection, TreasuryError>(if kind@ == "receipt"@ {
            TreasuryDirection::Receipt
        } else {
            TreasuryDirection::Payment
        }),
{
    let receipt = same_text(kind, "receipt");
    let payment = same_text(kind, "payment");
    if !(receipt || payment) {
        return Err(TreasuryError::InvalidType);
    }
    if amount <= 0 {
        return Err(TreasuryError::AmountNotPositive);
    }
    if blank(description) {
        return Err(TreasuryError::MissingDescription);
    }
    if receipt {
        Ok(TreasuryDirection::Receipt)
    } else {
        Ok(TreasuryDirection::Payment)
    }
}

/// The permission a treasury movement needs.
pub fn treasury_permission(direction: TreasuryDirection) -> (r: &'static str)
    ensures
        direction == TreasuryDirection::Receipt ==> r@ == "treasury.receipt.create"@,
        direction == TreasuryDirection::Payment ==> r@ == "treasury.payment.create"@,
{
    match direction {
        TreasuryDirection::Receipt => "treasury.receipt.create",
        TreasuryDirection::Payment => "treasury.payment.create",
    }
}

/// The entry of a treasury movement: a receipt debits the treasury's
/// account and credits the other; a payment the other way round.
pub fn treasury_movement_lines(direction: TreasuryDirection, treasury_account: &str, offset_account: &str, amount: i64) -> (r: Vec<JournalLine>)
    ensures
        direction == TreasuryDirection::Receipt ==> two_lines(r@, treasury_account@, offset_account@, amount as int),
        direction == TreasuryDirection::Payment ==> two_lines(r@, offset_account@, treasury_account@, amount as int),
{
    match direction {
        TreasuryDirection::Receipt => two_line_entry(treasury_account, offset_account, amount),
        TreasuryDirection::Payment => two_line_entry(offset_account, treasury_account, amount),
    }
}

/// The checks on a transfer between two treasury accounts: an amount above
/// zero and two different accounts.
pub fn transfer_input(from_account: &str, to_account: &str, amount: i64) -> (r: Result<(), TreasuryError>)
    ensures
        amount <= 0 ==> r == Err::<(), TreasuryError>(TreasuryError::AmountNotPositive),
        amount > 0 && from_account@ == to_account@ ==> r == Err::<(), TreasuryError>(TreasuryError::SameAccount),
        amount > 0 && from_account@ != to_account@ ==> r is Ok,
{
    if amount <= 0 {
        return Err(TreasuryError::AmountNotPositive);
    }
    if same_text(from_account, to_account) {
        return Err(TreasuryError::SameAccount);
    }
    Ok(())
}

/// The entry of a transfer: the receiving account's ledger account is
/// debited and the sending one's credited.
pub fn transfer_lines(from_ledger_account: &str, to_ledger_account: &str, amount: i64) -> (r: Vec<JournalLine>)
    ensures
        two_lines(r@, to_ledger_account@, from_ledger_account@, amount as int),
{
    two_line_entry(to_ledger_account, from_ledger_account, amount)
}

/// The net movement of a ledger row: its debit less its credit.
pub open spec fn moves_net(moves: Seq<(i64, i64)>) -> int
    decreases moves.len(),
{
    if moves.len() == 0 {
        0
    } else {
        moves_net(moves.drop_last()) + moves.last().0 - moves.last().1
    }
}

/// The running balances of an account's ledger: after each row, the opening
/// balance plus every debit less every credit so far.
pub fn running_balances(opening: i64, moves: &Vec<(i64, i64)>) -> (r: Vec<i128>)
    requires
        moves@.len() <= 0x1000_0000_0000_0000,
    ensures
        r@.len() == moves@.len(),
        forall|i: int| 0 <= i < moves@.len() ==> #[trigger] r@[i] == opening + moves_net(moves@.take(i + 1)),
{
    let mut out: Vec<i128> = Vec::new();
    let mut running: i128 = opening as i128;
    let mut i: usize = 0;
    let bound: i128 = 0x1_0000_0000_0000_0000;
    while i < moves.len()
        invariant
            0 <= i <= moves@.len(),
            moves@.len() <= 0x1000_0000_0000_0000,
            out@.len() == i,
            running == opening + moves_net(moves@.take(i as int)),
            -((i + 1) * bound) <= running <= (i + 1) * bound,
            bound == 0x1_0000_0000_0000_0000,
            forall|j: int| 0 <= j < i ==> #[trigger] out@[j] == opening + moves_net(moves@.take(j + 1)),
        decreases moves@.len() - i,
    {
        proof {
            assert(moves@.take(i + 1).drop_last() =~= moves@.take(i as int));
        }
        let (d, c) = moves[i];
        running = running + d as i128 - c as i128;
        out.push(running);
        i = i + 1;
    }
    out
}

/// The last running balance is the opening balance plus the ledger's net.
pub proof fn lemma_closing_balance(opening: int, moves: Seq<(i64, i64)>, balances: Seq<i128>)
    requires
        moves.len() > 0,
        balances.len() == moves.len(),
        forall|i: int| 0 <= i < moves.len() ==> #[trigger] balances[i] == opening + moves_net(moves.take(i + 1)),
    ensures
        balances.last() == opening + moves_net(moves),
{
    assert(moves.take(moves.len() as int) =~= moves);
    assert(balances[moves.len() - 1] == opening + moves_net(moves.take(moves.len() as int)));
}

/// Why a report or a closing was refused.
#[derive(Debug, Clone, Copy, PartialEq, Eq, Structural)]
pub enum PeriodError {
    /// The range of a ledger ends before it starts.
    BadRange,
    /// Draft entries remain in the year.
    DraftsRemain,
    /// The posted entries of the year do not balance.
    Unbalanced,
}

/// A ledger's range must not end before it starts (dates compare as texts).
pub fn check_ledger_range(from: &str, to: &str) -> (r: Result<(), PeriodError>)
    ensures
        r is Ok <==> text_le(from@, to@),
        r is Err ==> r == Err::<(), PeriodError>(PeriodError::BadRange),
{
    if text_le_exec(from, to) {
        Ok(())
    } else {
        Err(PeriodError::BadRange)
    }
}

/// A fiscal year can be closed once no draft entry remains in it and its
/// posted debits equal its posted credits.
pub fn check_year_closable(drafts: i64, debit: i64, credit: i64) -> (r: Result<(), PeriodError>)
    ensures
        drafts > 0 ==> r == Err::<(), PeriodError>(PeriodError::DraftsRemain),
        drafts <= 0 && debit != credit ==> r == Err::<(), PeriodError>(PeriodError::Unbalanced),
        drafts <= 0 && debit == credit ==> r is Ok,
{
    if drafts > 0 {
        return Err(PeriodError::DraftsRemain);
    }
    if debit != credit {
        return Err(PeriodError::Unbalanced);
    }
    Ok(())
}

} // verus!
