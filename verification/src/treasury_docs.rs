//! Receipt and payment documents settled by several methods at once. This
//! module holds the document's shape, its kinds and statuses, and the checks
//! on each line of the form.
use vstd::prelude::*;
use crate::text::{clean, int_text, is_blank, same_text, trim_seq, decimal_text};

verus! {

broadcast use vstd::string::group_string_axioms;

/// One line of a document, as the form sends it.
#[derive(Debug, Clone)]
pub struct DocumentLineInput {
    pub method: String,
    pub amount: i64,
    pub description: Option<String>,
    pub treasury_account_id: Option<String>,
    pub terminal_id: Option<String>,
    pub check_serial: Option<String>,
    pub check_due_date: Option<String>,
    pub check_bank_name: Option<String>,
    pub sayad_id: Option<String>,
}

/// A line of the entry that posting would record.
#[derive(Debug)]
pub struct JournalPreviewLine {
    pub account_id: String,
    pub account_name: String,
    pub debit: i64,
    pub credit: i64,
}

/// The totals of a document and the entry that posting it would record.
#[derive(Debug)]
pub struct DocumentPreview {
    pub cash: i64,
    pub check: i64,
    pub bank_transfer: i64,
    pub card_terminal: i64,
    pub discount: i64,
    pub offset: i64,
    pub total: i64,
    /// The part that really moves treasury balances.
    pub treasury_movement: i64,
    pub journal_preview: Vec<JournalPreviewLine>,
}

/// A document as the list shows it.
#[derive(Debug)]
pub struct TreasuryDocumentRow {
    pub id: String,
    pub kind: String,
    pub kind_label: String,
    pub number: i64,
    pub document_date: String,
    pub party_id: Option<String>,
    pub party_name: Option<String>,
    pub description: Option<String>,
    pub total: i64,
    pub status: String,
    pub status_label: String,
    pub journal_id: Option<String>,
    pub line_count: i64,
}

/// A stored line of a receipt or payment document.
#[derive(Debug)]
pub struct TreasuryDocumentLineRow {
    pub id: String,
    pub method: String,
    pub method_label: String,
    pub amount: i64,
    pub description: Option<String>,
    pub treasury_account_id: Option<String>,
    pub treasury_account_name: Option<String>,
    pub terminal_id: Option<String>,
    pub check_serial: Option<String>,
    pub check_due_date: Option<String>,
    pub check_bank_name: Option<String>,
    pub sayad_id: Option<String>,
    pub check_id: Option<String>,
}

/// A document with its lines.
#[derive(Debug)]
pub struct TreasuryDocumentDetail {
    pub header: TreasuryDocumentRow,
    pub lines: Vec<TreasuryDocumentLineRow>,
}

/// A settlement method with what the form must ask for it.
#[derive(Debug)]
pub struct PaymentMethodInfo {
    pub value: String,
    pub label: String,
    pub requires_treasury_account: bool,
    pub requires_terminal: bool,
    pub requires_check_details: bool,
    pub moves_treasury: bool,
}

/// The two kinds of document.
#[derive(Debug, Clone, Copy, PartialEq, Eq, Structural)]
pub enum DocumentKind {
    Receipt,
    Payment,
}

/// Why a document was refused. Rows count from one.
#[derive(Debug, Clone, Copy, PartialEq, Eq, Structural)]
pub enum DocumentError {
    /// TDOC-001
    BadKind,
    /// TDOC-002
    UnknownMethod(usize),
    /// TDOC-003
    AmountNotPositive(usize),
    /// TDOC-004
    MissingCheckSerial(usize),
    /// TDOC-005
    MissingCheckDueDate(usize),
    /// TDOC-020
    MissingTreasuryAccount(usize),
}

/// Reads a document kind: `receipt` or `payment`.
pub fn parse_kind(kind: &str) -> (r: Result<DocumentKind, DocumentError>)
    ensures
        r == (if kind@ == "receipt"@ {
            Ok(DocumentKind::Receipt)
        } else if kind@ == "payment"@ {
            Ok(DocumentKind::Payment)
        } else {
            Err(DocumentError::BadKind)
        }),
{
    if same_text(kind, "receipt") {
        Ok(DocumentKind::Receipt)
    } else if same_text(kind, "payment") {
        Ok(DocumentKind::Payment)
    } else {
        Err(DocumentError::BadKind)
    }
}

/// The permission that recording a document of this kind needs.
pub fn document_permission(kind: DocumentKind) -> (r: &'static str)
    ensures
        kind == DocumentKind::Receipt ==> r@ == "treasury.receipt.create"@,
        kind == DocumentKind::Payment ==> r@ == "treasury.payment.create"@,
{
    match kind {
        DocumentKind::Receipt => "treasury.receipt.create",
        DocumentKind::Payment => "treasury.payment.create",
    }
}

/// The label of a document's status.
pub open spec fn document_status_label(status: Seq<char>) -> Seq<char> {
    if status == "draft"@ {
        "پیش‌نویس"@
    } else if status == "posted"@ {
        "ثبت‌شده"@
    } else if status == "cancelled"@ {
        "باطل‌شده"@
    } else {
        "نامشخص"@
    }
}

/// The label of a document's status.
pub fn status_label(status: &str) -> (r: &'static str)
    ensures
        r@ == document_status_label(status@),
{
    if same_text(status, "draft") {
        "پیش‌نویس"
    } else if same_text(status, "posted") {
        "ثبت‌شده"
    } else if same_text(status, "cancelled") {
        "باطل‌شده"
    } else {
        "نامشخص"
    }
}

/// The label of a stored kind: a receipt, and anything else a payment.
pub fn kind_label(kind: &str) -> (r: &'static str)
    ensures
        kind@ == "receipt"@ ==> r@ == "دریافت"@,
        kind@ != "receipt"@ ==> r@ == "پرداخت"@,
{
    if same_text(kind, "receipt") {
        "دریافت"
    } else {
        "پرداخت"
    }
}

/// An optional text, trimmed, with a blank one taken as missing.
pub open spec fn cleaned(value: Option<String>) -> Option<Seq<char>> {
    match value {
        Some(v) => if trim_seq(v@).len() == 0 {
            None
        } else {
            Some(trim_seq(v@))
        },
        None => None,
    }
}

/// The cheque details of a line, trimmed.
#[derive(Debug)]
pub struct CheckedCheck {
    pub serial: String,
    pub due_date: String,
}

/// The outcome of checking line `index` (from zero) of a document.
/// `method_known` says whether its method is one the engine knows, and
/// `is_check` whether that method is a cheque.
pub open spec fn line_check(input: DocumentLineInput, index: int, method_known: bool, is_check: bool) -> Result<Option<(Seq<char>, Seq<char>)>, DocumentError> {
    let row = (index + 1) as usize;
    if !method_known {
        Err(DocumentError::UnknownMethod(row))
    } else if input.amount <= 0 {
        Err(DocumentError::AmountNotPositive(row))
    } else if is_check {
        if cleaned(input.check_serial) is None {
            Err(DocumentError::MissingCheckSerial(row))
        } else if cleaned(input.check_due_date) is None {
            Err(DocumentError::MissingCheckDueDate(row))
        } else {
            Ok(Some((cleaned(input.check_serial)->0, cleaned(input.check_due_date)->0)))
        }
    } else {
        Ok(None)
    }
}

/// Checks one line of a document: a known method, an amount above zero, and
/// for a cheque its serial and due date. Gives the cheque's details trimmed.
pub fn check_document_line(input: &DocumentLineInput, index: usize, method_known: bool, is_check: bool) -> (r: Result<Option<CheckedCheck>, DocumentError>)
    requires
        index < usize::MAX,
    ensures
        match line_check(*input, index as int, method_known, is_check) {
            Err(e) => r == Err::<Option<CheckedCheck>, DocumentError>(e),
            Ok(None) => r == Ok::<Option<CheckedCheck>, DocumentError>(None),
            Ok(Some(d)) => r matches Ok(Some(c)) && c.serial@ == d.0 && c.due_date@ == d.1,
        },
{
    let row = index + 1;
    if !method_known {
        return Err(DocumentError::UnknownMethod(row));
    }
    if input.amount <= 0 {
        return Err(DocumentError::AmountNotPositive(row));
    }
    if is_check {
        let serial = match clean(&input.check_serial) {
            Some(s) => s,
            None => {
                return Err(DocumentError::MissingCheckSerial(row));
            },
        };
        let due = match clean(&input.check_due_date) {
            Some(d) => d,
            None => {
                return Err(DocumentError::MissingCheckDueDate(row));
            },
        };
        Ok(Some(CheckedCheck { serial, due_date: due }))
    } else {
        Ok(None)
    }
}

/// The description of a document's entry: the document's own, else the
/// kind and number of the document.
pub fn journal_description(description: &Option<String>, kind: DocumentKind, number: i64) -> (r: String)
    ensures
        description matches Some(d) ==> r@ == d@,
        description is None ==> r@ == (if kind == DocumentKind::Receipt {
            "سند دریافت"@
        } else {
            "سند پرداخت"@
        }) + " شماره "@ + decimal_text(number as int),
{
    match description {
        Some(d) => d.clone(),
        None => {
            let head = match kind {
                DocumentKind::Receipt => String::from_str("سند دریافت"),
                DocumentKind::Payment => String::from_str("سند پرداخت"),
            };
            let head = head.concat(" شماره ");
            head.concat(int_text(number).as_str())
        },
    }
}

/// The kind of the cheque a document line creates: a receipt takes in a
/// received cheque, a payment hands out an issued one.
pub fn check_type_for(kind: DocumentKind) -> (r: &'static str)
    ensures
        kind == DocumentKind::Receipt ==> r@ == "received"@,
        kind == DocumentKind::Payment ==> r@ == "issued"@,
{
    match kind {
        DocumentKind::Receipt => "received",
        DocumentKind::Payment => "issued",
    }
}

/// The treasury account of a line whose method moves money; such a line
/// must name one.
pub fn movement_account(input: &DocumentLineInput, index: usize) -> (r: Result<String, DocumentError>)
    requires
        index < usize::MAX,
    ensures
        input.treasury_account_id matches Some(a) ==> (r matches Ok(x) && x == a),
        input.treasury_account_id is None ==> r == Err::<String, DocumentError>(DocumentError::MissingTreasuryAccount((index + 1) as usize)),
{
    match &input.treasury_account_id {
        Some(a) => Ok(a.clone()),
        None => Err(DocumentError::MissingTreasuryAccount(index + 1)),
    }
}

/// The code of the chart account that stands for the other party: the
/// customers' account for a receipt, the suppliers' for a payment.
pub fn party_account_code(kind: DocumentKind) -> (r: &'static str)
    ensures
        kind == DocumentKind::Receipt ==> r@ == "1201"@,
        kind == DocumentKind::Payment ==> r@ == "2101"@,
{
    match kind {
        DocumentKind::Receipt => "1201",
        DocumentKind::Payment => "2101",
    }
}

} // verus!
