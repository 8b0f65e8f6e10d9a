//! The aging of open invoices: how much each party still owes, split by how
//! many days have passed since the invoice date.
use vstd::prelude::*;
use crate::text::{owned, same_text};

verus! {

/// An open invoice as the aging report reads it: whose it is, its date
/// (`YYYY-MM-DD`) and what is still open on it.
#[derive(Debug, Clone)]
pub struct AgingInvoice {
    pub contact_id: String,
    pub contact_name: String,
    pub invoice_date: String,
    pub open_amount: i64,
}

/// One party's open amounts by age.
#[derive(Debug, Clone)]
pub struct PartyAging {
    pub contact_id: String,
    pub contact_name: String,
    pub current: i64,
    pub days_1_30: i64,
    pub days_31_60: i64,
    pub days_61_90: i64,
    pub over_90: i64,
    pub total: i64,
}

/// Why the aging report was refused.
#[derive(Debug, Clone, Copy, PartialEq, Eq, Structural)]
pub enum AgingError {
    /// RPT-011: the report date is not a valid date.
    BadReportDate,
}

/// The day number (days from the start of the common era) of a text read
/// as a `%Y-%m-%d` date, or `None` where it does not read as one.
pub uninterp spec fn iso_day_number(text: Seq<char>) -> Option<i32>;

/// Reads `text` with chrono's `NaiveDate::parse_from_str` and the format
/// `%Y-%m-%d`, and hands back the date's `num_days_from_ce`. The contract
/// claims only that the outcome is a function of the text.
#[verifier::external_body]
fn iso_day(text: &str) -> (r: Option<i32>)
    ensures
        r == iso_day_number(text@),
{
    match chrono::NaiveDate::parse_from_str(text, "%Y-%m-%d") {
        Ok(date) => Some(chrono::Datelike::num_days_from_ce(&date)),
        Err(_) => None,
    }
}

/// The age of an invoice in days on the report day: never below zero, and
/// zero where the invoice date does not read as a date.
pub open spec fn age_in_days(as_of: int, invoice_day: Option<i32>) -> int {
    match invoice_day {
        Some(d) => if as_of - d > 0 {
            as_of - d
        } else {
            0
        },
        None => 0,
    }
}

/// The column an age falls in: 0 current, 1 for 1–30 days, 2 for 31–60,
/// 3 for 61–90 and 4 for more.
pub open spec fn bucket_of(days: int) -> int {
    if days <= 0 {
        0
    } else if days <= 30 {
        1
    } else if days <= 60 {
        2
    } else if days <= 90 {
        3
    } else {
        4
    }
}

/// The parties of the first `n` invoices, each once, in the order they
/// first appear.
pub open spec fn aging_contacts(rows: Seq<AgingInvoice>, n: int) -> Seq<Seq<char>>
    decreases n,
{
    if n <= 0 {
        Seq::empty()
    } else {
        let prev = aging_contacts(rows, n - 1);
        if prev.contains(rows[n - 1].contact_id@) {
            prev
        } else {
            prev.push(rows[n - 1].contact_id@)
        }
    }
}

/// The name of party `id` as its first invoice among the first `n` gives it.
pub open spec fn aging_name(rows: Seq<AgingInvoice>, n: int, id: Seq<char>) -> Seq<char>
    decreases n,
{
    if n <= 0 {
        Seq::empty()
    } else if !aging_contacts(rows, n - 1).contains(id) && rows[n - 1].contact_id@ == id {
        rows[n - 1].contact_name@
    } else {
        aging_name(rows, n - 1, id)
    }
}

/// What party `id` owes on the first `n` invoices whose age falls in
/// column `b`.
pub open spec fn bucket_total(rows: Seq<AgingInvoice>, days: Seq<i64>, n: int, id: Seq<char>, b: int) -> int
    decreases n,
{
    if n <= 0 {
        0
    } else {
        bucket_total(rows, days, n - 1, id, b) + if rows[n - 1].contact_id@ == id && bucket_of(
            days[n - 1] as int,
        ) == b {
            rows[n - 1].open_amount as int
        } else {
            0
        }
    }
}

/// What party `id` owes on the first `n` invoices.
pub open spec fn contact_total(rows: Seq<AgingInvoice>, n: int, id: Seq<char>) -> int
    decreases n,
{
    if n <= 0 {
        0
    } else {
        contact_total(rows, n - 1, id) + if rows[n - 1].contact_id@ == id {
            rows[n - 1].open_amount as int
        } else {
            0
        }
    }
}

/// Every invoice is open by a positive amount, and no party owes more in
/// all than 64 bits hold.
pub open spec fn aging_rows_ok(rows: Seq<AgingInvoice>) -> bool {
    &&& forall|i: int| 0 <= i < rows.len() ==> #[trigger] rows[i].open_amount > 0
    &&& forall|id: Seq<char>| contact_total(rows, rows.len() as int, id) <= i64::MAX
}

/// The row of the report for party `id` after the first `n` invoices.
pub open spec fn aging_row_matches(
    row: PartyAging,
    rows: Seq<AgingInvoice>,
    days: Seq<i64>,
    n: int,
    id: Seq<char>,
) -> bool {
    &&& row.contact_id@ == id
    &&& row.contact_name@ == aging_name(rows, n, id)
    &&& row.current == bucket_total(rows, days, n, id, 0)
    &&& row.days_1_30 == bucket_total(rows, days, n, id, 1)
    &&& row.days_31_60 == bucket_total(rows, days, n, id, 2)
    &&& row.days_61_90 == bucket_total(rows, days, n, id, 3)
    &&& row.over_90 == bucket_total(rows, days, n, id, 4)
    &&& row.total == contact_total(rows, n, id)
}

proof fn lemma_contacts_distinct(rows: Seq<AgingInvoice>, n: int)
    ensures
        aging_contacts(rows, n).no_duplicates(),
    decreases n,
{
    if n > 0 {
        lemma_contacts_distinct(rows, n - 1);
    }
}

proof fn lemma_unseen_owes_nothing(rows: Seq<AgingInvoice>, days: Seq<i64>, n: int, id: Seq<char>)
    requires
        0 <= n <= rows.len(),
        !aging_contacts(rows, n).contains(id),
    ensures
        contact_total(rows, n, id) == 0,
        forall|b: int| #[trigger] bucket_total(rows, days, n, id, b) == 0,
    decreases n,
{
    if n > 0 {
        let prev = aging_contacts(rows, n - 1);
        let x = rows[n - 1].contact_id@;
        if prev.contains(id) {
            let j = choose|j: int| 0 <= j < prev.len() && prev[j] == id;
            assert(aging_contacts(rows, n)[j] == id);
        }
        if !prev.contains(x) {
            assert(aging_contacts(rows, n)[prev.len() as int] == x);
        }
        lemma_unseen_owes_nothing(rows, days, n - 1, id);
        assert forall|b: int| #[trigger] bucket_total(rows, days, n, id, b) == 0 by {
            assert(bucket_total(rows, days, n - 1, id, b) == 0);
        }
    }
}

proof fn lemma_totals_bounded(rows: Seq<AgingInvoice>, days: Seq<i64>, n: int, m: int, id: Seq<char>)
    requires
        0 <= n <= m <= rows.len(),
        forall|i: int| 0 <= i < rows.len() ==> #[trigger] rows[i].open_amount > 0,
    ensures
        0 <= contact_total(rows, n, id) <= contact_total(rows, m, id),
        forall|b: int| 0 <= #[trigger] bucket_total(rows, days, n, id, b) <= contact_total(rows, n, id),
    decreases m,
{
    if m > n {
        assert(rows[m - 1].open_amount > 0);
        lemma_totals_bounded(rows, days, n, m - 1, id);
    } else if n > 0 {
        assert(rows[n - 1].open_amount > 0);
        lemma_totals_bounded(rows, days, n - 1, n - 1, id);
        assert forall|b: int| 0 <= #[trigger] bucket_total(rows, days, n, id, b) <= contact_total(rows, n, id) by {
            assert(0 <= bucket_total(rows, days, n - 1, id, b) <= contact_total(rows, n - 1, id));
        }
    }
}

/// `out` is the aging report of `rows` when invoice `i` is `days[i]` days
/// old: one row per party, in the order parties first appear, and no party
/// twice.
pub open spec fn aging_report(out: Seq<PartyAging>, rows: Seq<AgingInvoice>, days: Seq<i64>) -> bool {
    &&& out.len() == aging_contacts(rows, rows.len() as int).len()
    &&& forall|j: int, k: int|
        0 <= j < k < out.len() ==> (#[trigger] out[j]).contact_id@ != (#[trigger] out[k]).contact_id@
    &&& forall|k: int|
        0 <= k < out.len() ==> aging_row_matches(
            #[trigger] out[k],
            rows,
            days,
            rows.len() as int,
            aging_contacts(rows, rows.len() as int)[k],
        )
}

/// The age of every invoice on report day `as_of`.
pub open spec fn aging_days(rows: Seq<AgingInvoice>, as_of: i32) -> Seq<i64> {
    Seq::new(rows.len(), |i: int| age_in_days(as_of as int, iso_day_number(rows[i].invoice_date@)) as i64)
}

/// The sum of the totals of report rows.
pub open spec fn report_sum(out: Seq<PartyAging>) -> int
    decreases out.len(),
{
    if out.len() == 0 {
        0
    } else {
        report_sum(out.drop_last()) + out.last().total
    }
}

/// The sum of what is open on the first `n` invoices.
pub open spec fn open_sum(rows: Seq<AgingInvoice>, n: int) -> int
    decreases n,
{
    if n <= 0 {
        0
    } else {
        open_sum(rows, n - 1) + rows[n - 1].open_amount
    }
}

proof fn lemma_report_sum_update(out: Seq<PartyAging>, k: int, row: PartyAging)
    requires
        0 <= k < out.len(),
    ensures
        report_sum(out.update(k, row)) == report_sum(out) - out[k].total + row.total,
    decreases out.len(),
{
    if k < out.len() - 1 {
        lemma_report_sum_update(out.drop_last(), k, row);
        assert(out.update(k, row).drop_last() =~= out.drop_last().update(k, row));
    } else {
        assert(out.update(k, row).drop_last() =~= out.drop_last());
    }
}

/// Groups open invoices by party, in the order parties first appear, and
/// adds each invoice's open amount to its party's total and to the column
/// of its age `days[i]`. Each party's total is the sum of its columns.
pub fn group_aging(rows: &Vec<AgingInvoice>, days: &Vec<i64>) -> (r: Vec<PartyAging>)
    requires
        days@.len() == rows@.len(),
        aging_rows_ok(rows@),
    ensures
        aging_report(r@, rows@, days@),
        report_sum(r@) == open_sum(rows@, rows@.len() as int),
        forall|k: int|
            0 <= k < r@.len() ==> (#[trigger] r@[k]).total == r@[k].current + r@[k].days_1_30
                + r@[k].days_31_60 + r@[k].days_61_90 + r@[k].over_90,
{
    let mut out: Vec<PartyAging> = Vec::new();
    let mut i: usize = 0;
    while i < rows.len()
        invariant
            0 <= i <= rows@.len(),
            days@.len() == rows@.len(),
            aging_rows_ok(rows@),
            out@.len() == aging_contacts(rows@, i as int).len(),
            report_sum(out@) == open_sum(rows@, i as int),
            forall|k: int|
                0 <= k < out@.len() ==> aging_row_matches(
                    #[trigger] out@[k],
                    rows@,
                    days@,
                    i as int,
                    aging_contacts(rows@, i as int)[k],
                ),
            forall|k: int|
                0 <= k < out@.len() ==> (#[trigger] out@[k]).total == out@[k].current
                    + out@[k].days_1_30 + out@[k].days_31_60 + out@[k].days_61_90 + out@[k].over_90,
        decreases rows@.len() - i,
    {
        let row = &rows[i];
        let ghost id = row.contact_id@;
        let ghost prev = aging_contacts(rows@, i as int);
        let ghost bucket = bucket_of(days@[i as int] as int);
        proof {
            lemma_contacts_distinct(rows@, i as int);
            lemma_totals_bounded(rows@, days@, i as int + 1, rows@.len() as int, id);
            assert(rows@[i as int].open_amount > 0);
        }
        let mut k: usize = 0;
        let mut found = false;
        while k < out.len()
            invariant_except_break
                !found,
            invariant
                0 <= k <= out@.len(),
                id == row.contact_id@,
                forall|j: int| 0 <= j < k ==> (#[trigger] out@[j]).contact_id@ != id,
            ensures
                found ==> k < out@.len() && out@[k as int].contact_id@ == id,
                !found ==> forall|j: int| 0 <= j < out@.len() ==> (#[trigger] out@[j]).contact_id@ != id,
            decreases out@.len() - k,
        {
            if same_text(out[k].contact_id.as_str(), row.contact_id.as_str()) {
                found = true;
                break;
            }
            k = k + 1;
        }
        let d = days[i];
        let amount = row.open_amount;
        if found {
            proof {
                assert(prev[k as int] == id);
                assert(prev.contains(id));
                assert(aging_contacts(rows@, i as int + 1) == prev);
                lemma_totals_bounded(rows@, days@, i as int, i as int + 1, id);
                assert forall|j: int| 0 <= j < prev.len() && j != k implies #[trigger] prev[j] != id by {
                    assert(prev[k as int] == id);
                }
            }
            let prior = &out[k];
            let mut entry = PartyAging {
                contact_id: owned(prior.contact_id.as_str()),
                contact_name: owned(prior.contact_name.as_str()),
                current: prior.current,
                days_1_30: prior.days_1_30,
                days_31_60: prior.days_31_60,
                days_61_90: prior.days_61_90,
                over_90: prior.over_90,
                total: prior.total + amount,
            };
            if d <= 0 {
                entry.current = entry.current + amount;
            } else if d <= 30 {
                entry.days_1_30 = entry.days_1_30 + amount;
            } else if d <= 60 {
                entry.days_31_60 = entry.days_31_60 + amount;
            } else if d <= 90 {
                entry.days_61_90 = entry.days_61_90 + amount;
            } else {
                entry.over_90 = entry.over_90 + amount;
            }
            proof {
                lemma_report_sum_update(out@, k as int, entry);
            }
            out.set(k, entry);
            proof {
                assert forall|j: int| 0 <= j < out@.len() implies aging_row_matches(
                    #[trigger] out@[j],
                    rows@,
                    days@,
                    i as int + 1,
                    aging_contacts(rows@, i as int + 1)[j],
                ) by {
                    let cid = prev[j];
                    assert(aging_name(rows@, i as int + 1, cid) == aging_name(rows@, i as int, cid));
                    assert(contact_total(rows@, i as int + 1, cid) == contact_total(rows@, i as int, cid)
                        + if cid == id { amount as int } else { 0 });
                    assert forall|b: int| #[trigger] bucket_total(rows@, days@, i as int + 1, cid, b)
                        == bucket_total(rows@, days@, i as int, cid, b) + if cid == id && bucket == b {
                            amount as int
                        } else {
                            0
                        } by {}
                }
            }
        } else {
            proof {
                if prev.contains(id) {
                    let j = choose|j: int| 0 <= j < prev.len() && prev[j] == id;
                    assert(out@[j].contact_id@ == id);
                }
                lemma_unseen_owes_nothing(rows@, days@, i as int, id);
            }
            let mut entry = PartyAging {
                contact_id: owned(row.contact_id.as_str()),
                contact_name: owned(row.contact_name.as_str()),
                current: 0,
                days_1_30: 0,
                days_31_60: 0,
                days_61_90: 0,
                over_90: 0,
                total: amount,
            };
            if d <= 0 {
                entry.current = amount;
            } else if d <= 30 {
                entry.days_1_30 = amount;
            } else if d <= 60 {
                entry.days_31_60 = amount;
            } else if d <= 90 {
                entry.days_61_90 = amount;
            } else {
                entry.over_90 = amount;
            }
            let ghost before = out@;
            out.push(entry);
            proof {
                assert(out@.drop_last() =~= before);
                let cur = aging_contacts(rows@, i as int + 1);
                assert(cur == prev.push(id));
                assert forall|j: int| 0 <= j < out@.len() implies aging_row_matches(
                    #[trigger] out@[j],
                    rows@,
                    days@,
                    i as int + 1,
                    cur[j],
                ) by {
                    let cid = cur[j];
                    if j < prev.len() {
                        assert(cid == prev[j]);
                        assert(prev.contains(cid));
                        assert(cid != id);
                    }
                    assert(aging_name(rows@, i as int + 1, cid) == if j < prev.len() {
                        aging_name(rows@, i as int, cid)
                    } else {
                        row.contact_name@
                    });
                    assert forall|b: int| #[trigger] bucket_total(rows@, days@, i as int + 1, cid, b)
                        == bucket_total(rows@, days@, i as int, cid, b) + if cid == id && bucket == b {
                            amount as int
                        } else {
                            0
                        } by {}
                }
            }
        }
        i = i + 1;
    }
    proof {
        let all = aging_contacts(rows@, rows@.len() as int);
        lemma_contacts_distinct(rows@, rows@.len() as int);
        assert forall|j: int, k: int| 0 <= j < k < out@.len() implies (#[trigger] out@[j]).contact_id@
            != (#[trigger] out@[k]).contact_id@ by {
            assert(out@[j].contact_id@ == all[j]);
            assert(out@[k].contact_id@ == all[k]);
        }
    }
    out
}

/// The aging report of open invoices on the date `as_of` (`YYYY-MM-DD`).
/// An invoice date that does not read as a date counts as the report day.
/// What the report shows in all equals what is open on the invoices.
pub fn party_aging(as_of: &str, rows: &Vec<AgingInvoice>) -> (r: Result<Vec<PartyAging>, AgingError>)
    requires
        aging_rows_ok(rows@),
    ensures
        match iso_day_number(as_of@) {
            None => r == Err::<Vec<PartyAging>, AgingError>(AgingError::BadReportDate),
            Some(d0) => r is Ok && aging_report(r->Ok_0@, rows@, aging_days(rows@, d0)),
        },
        r is Ok ==> report_sum(r->Ok_0@) == open_sum(rows@, rows@.len() as int),
{
    let d0 = match iso_day(as_of) {
        Some(d) => d,
        None => {
            return Err(AgingError::BadReportDate);
        },
    };
    let mut days: Vec<i64> = Vec::new();
    let mut i: usize = 0;
    while i < rows.len()
        invariant
            0 <= i <= rows@.len(),
            days@.len() == i,
            iso_day_number(as_of@) == Some(d0),
            forall|j: int| 0 <= j < i ==> #[trigger] days@[j] == aging_days(rows@, d0)[j],
        decreases rows@.len() - i,
    {
        let age: i64 = match iso_day(rows[i].invoice_date.as_str()) {
            Some(d) => {
                let diff: i64 = d0 as i64 - d as i64;
                if diff > 0 {
                    diff
                } else {
                    0
                }
            },
            None => 0,
        };
        days.push(age);
        i = i + 1;
    }
    proof {
        assert(days@ =~= aging_days(rows@, d0));
    }
    Ok(group_aging(rows, &days))
}

} // verus!
