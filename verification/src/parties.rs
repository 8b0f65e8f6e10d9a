//! The party form: seven tabs saved together. This module holds the form's
//! shape and the checks on the tabs that hold several rows (phones, bank
//! accounts, images, occasions) and on e-mail and shop login.
use vstd::prelude::*;
use crate::text::{
    blank, chars_of, clean, has_char_in, is_blank, same_text, split_ranges, split_seq, trim,
    trim_seq,
};

verus! {

broadcast use vstd::string::group_string_axioms;

/// A phone number on the party form.
#[derive(Debug, Clone)]
pub struct PhoneInput {
    pub title: Option<String>,
    pub number: String,
    pub is_primary: bool,
}

/// A bank account on the party form.
#[derive(Debug, Clone)]
pub struct BankAccountInput {
    pub bank_name: String,
    pub branch_name: Option<String>,
    pub account_number: Option<String>,
    pub iban: Option<String>,
    pub card_number: Option<String>,
    pub holder_name: Option<String>,
    pub is_default: bool,
}

/// An image attached on the party form.
#[derive(Debug, Clone)]
pub struct ImageInput {
    pub title: Option<String>,
    pub file_path: String,
    pub is_primary: bool,
}

/// An occasion (a birthday, an anniversary) on the party form, by its
/// Jalali month and day.
#[derive(Debug, Clone)]
pub struct OccasionInput {
    pub title: String,
    pub jalali_month: i64,
    pub jalali_day: i64,
    pub remind_days_before: i64,
}

/// The whole party form.
#[derive(Debug)]
pub struct PartyInput {
    pub id: Option<String>,
    pub code: Option<String>,
    pub party_type: String,
    pub party_function: String,
    pub title_prefix: Option<String>,
    pub first_name: Option<String>,
    pub last_name: Option<String>,
    pub company_name: Option<String>,
    pub national_id: Option<String>,
    pub economic_code: Option<String>,
    pub group_id: Option<String>,
    pub route_id: Option<String>,
    pub marketer_id: Option<String>,
    pub opening_date: Option<String>,
    pub is_customer: bool,
    pub is_supplier: bool,
    pub is_active: bool,
    pub mobile: Option<String>,
    pub email: Option<String>,
    pub website: Option<String>,
    pub province: Option<String>,
    pub city: Option<String>,
    pub address: Option<String>,
    pub postal_code: Option<String>,
    pub phones: Vec<PhoneInput>,
    pub bank_accounts: Vec<BankAccountInput>,
    pub images: Vec<ImageInput>,
    /// The shop login; the password is only ever stored hashed.
    pub portal_username: Option<String>,
    pub portal_password: Option<String>,
    pub job_title: Option<String>,
    pub introduction: Option<String>,
    pub credit_limit: i64,
    pub note: Option<String>,
    pub occasions: Vec<OccasionInput>,
}

/// A party group with the number of its members.
#[derive(Debug)]
pub struct PartyGroupRow {
    pub id: String,
    pub code: String,
    pub title: String,
    pub parent_id: Option<String>,
    pub member_count: i64,
}

/// A stored phone number of a party.
#[derive(Debug)]
pub struct PhoneRow {
    pub id: String,
    pub title: Option<String>,
    pub number: String,
    pub is_primary: bool,
}

/// A stored bank account of a party.
#[derive(Debug)]
pub struct BankAccountRow {
    pub id: String,
    pub bank_name: String,
    pub branch_name: Option<String>,
    pub account_number: Option<String>,
    pub iban: Option<String>,
    pub card_number: Option<String>,
    pub holder_name: Option<String>,
    pub is_default: bool,
}

/// A stored image of a party.
#[derive(Debug)]
pub struct ImageRow {
    pub id: String,
    pub title: Option<String>,
    pub file_path: String,
    pub is_primary: bool,
}

/// A stored occasion of a party.
#[derive(Debug)]
pub struct OccasionRow {
    pub id: String,
    pub title: String,
    pub jalali_month: i64,
    pub jalali_day: i64,
    pub remind_days_before: i64,
}

/// An occasion of some party falling in a given month, for reminders.
#[derive(Debug)]
pub struct UpcomingOccasion {
    pub contact_id: String,
    pub contact_name: String,
    pub title: String,
    pub jalali_month: i64,
    pub jalali_day: i64,
    pub remind_days_before: i64,
}

/// A party with all its tabs, for the edit form.
#[derive(Debug)]
pub struct PartyDetail {
    pub id: String,
    pub code: Option<String>,
    pub party_type: String,
    pub party_type_label: String,
    pub party_function: String,
    pub party_function_label: String,
    pub title_prefix: Option<String>,
    pub first_name: Option<String>,
    pub last_name: Option<String>,
    pub company_name: Option<String>,
    pub display_name: String,
    pub national_id: Option<String>,
    pub economic_code: Option<String>,
    pub group_id: Option<String>,
    pub route_id: Option<String>,
    pub marketer_id: Option<String>,
    pub opening_date: Option<String>,
    pub is_customer: bool,
    pub is_supplier: bool,
    pub is_active: bool,
    pub mobile: Option<String>,
    pub email: Option<String>,
    pub website: Option<String>,
    pub province: Option<String>,
    pub city: Option<String>,
    pub address: Option<String>,
    pub postal_code: Option<String>,
    pub job_title: Option<String>,
    pub introduction: Option<String>,
    pub credit_limit: i64,
    pub note: Option<String>,
    pub portal_username: Option<String>,
    /// Whether a shop password is set; the password itself never leaves.
    pub has_portal_password: bool,
    pub phones: Vec<PhoneRow>,
    pub bank_accounts: Vec<BankAccountRow>,
    pub images: Vec<ImageRow>,
    pub occasions: Vec<OccasionRow>,
}

/// A value of a list with its label.
#[derive(Debug)]
pub struct LabelledOption {
    pub value: String,
    pub label: String,
}

/// Why the party form was refused. Rows count from one.
#[derive(Debug, Clone, Copy, PartialEq, Eq, Structural)]
pub enum PartyError {
    /// PRT-010
    EmptyPhone(usize),
    /// PRT-011
    SeveralPrimaryPhones,
    /// PRT-012
    EmptyBankName(usize),
    /// PRT-013
    BadIban(usize),
    /// PRT-014
    BadCard(usize),
    /// PRT-015
    SeveralDefaultAccounts,
    /// PRT-016
    EmptyImagePath,
    /// PRT-017
    SeveralPrimaryImages,
    /// PRT-018
    EmptyOccasionTitle(usize),
    /// PRT-019
    BadOccasionMonth(usize),
    /// PRT-020
    BadOccasionDay(usize),
    /// PRT-021
    BadReminder(usize),
    /// PRT-022
    BadEmail,
    /// PRT-023
    ShortUsername,
    /// PRT-024
    ShortPassword,
    /// PRT-025
    PasswordWithoutUsername,
    /// PRT-030
    MissingGroupCodeOrTitle,
    /// PRT-031
    GroupOwnParent,
}

/// An optional text, trimmed, with a blank one taken as missing.
pub open spec fn cleaned(value: Option<String>) -> Option<Seq<char>> {
    match value {
        Some(v) => if trim_seq(v@).len() == 0 {
            None
        } else {
            Some(trim_seq(v@))
        },
        None => None,
    }
}

/// How many of the first `n` phones are marked primary.
pub open spec fn primary_phones(p: Seq<PhoneInput>, n: int) -> int
    decreases n,
{
    if n <= 0 {
        0
    } else {
        primary_phones(p, n - 1) + if p[n - 1].is_primary {
            1int
        } else {
            0
        }
    }
}

/// How many of the first `n` bank accounts are marked default.
pub open spec fn default_accounts(b: Seq<BankAccountInput>, n: int) -> int
    decreases n,
{
    if n <= 0 {
        0
    } else {
        default_accounts(b, n - 1) + if b[n - 1].is_default {
            1int
        } else {
            0
        }
    }
}

/// How many of the first `n` images are marked primary.
pub open spec fn primary_images(m: Seq<ImageInput>, n: int) -> int
    decreases n,
{
    if n <= 0 {
        0
    } else {
        primary_images(m, n - 1) + if m[n - 1].is_primary {
            1int
        } else {
            0
        }
    }
}

/// The first phone, from `i` on, whose number is blank.
pub open spec fn first_blank_phone(p: Seq<PhoneInput>, i: int) -> Option<int>
    decreases p.len() - i,
{
    if i < 0 || i >= p.len() {
        None
    } else if is_blank(p[i].number@) {
        Some(i)
    } else {
        first_blank_phone(p, i + 1)
    }
}

/// The error of bank account `i`, if any: a blank bank name, then an IBAN
/// that fails its check digits, then a card number that fails its check.
pub open spec fn bank_row_error(b: Seq<BankAccountInput>, iban_valid: Seq<bool>, card_valid: Seq<bool>, i: int) -> Option<PartyError> {
    if is_blank(b[i].bank_name@) {
        Some(PartyError::EmptyBankName((i + 1) as usize))
    } else if cleaned(b[i].iban) is Some && !iban_valid[i] {
        Some(PartyError::BadIban((i + 1) as usize))
    } else if cleaned(b[i].card_number) is Some && !card_valid[i] {
        Some(PartyError::BadCard((i + 1) as usize))
    } else {
        None
    }
}

/// The first bank account, from `i` on, that breaks a rule, with its error.
pub open spec fn first_bank_error(b: Seq<BankAccountInput>, iban_valid: Seq<bool>, card_valid: Seq<bool>, i: int) -> Option<PartyError>
    decreases b.len() - i,
{
    if i < 0 || i >= b.len() {
        None
    } else if bank_row_error(b, iban_valid, card_valid, i) is Some {
        bank_row_error(b, iban_valid, card_valid, i)
    } else {
        first_bank_error(b, iban_valid, card_valid, i + 1)
    }
}

/// The first image, from `i` on, without a file path.
pub open spec fn first_blank_image(m: Seq<ImageInput>, i: int) -> Option<int>
    decreases m.len() - i,
{
    if i < 0 || i >= m.len() {
        None
    } else if is_blank(m[i].file_path@) {
        Some(i)
    } else {
        first_blank_image(m, i + 1)
    }
}

/// The days of a Jalali month: 31 in the first six months, 30 after.
pub open spec fn days_in_month(month: i64) -> i64 {
    if month <= 6 {
        31
    } else {
        30
    }
}

/// The error of occasion `i`, if any.
pub open spec fn occasion_error(o: Seq<OccasionInput>, i: int) -> Option<PartyError> {
    let x = o[i];
    let row = (i + 1) as usize;
    if is_blank(x.title@) {
        Some(PartyError::EmptyOccasionTitle(row))
    } else if !(1 <= x.jalali_month <= 12) {
        Some(PartyError::BadOccasionMonth(row))
    } else if x.jalali_day < 1 || x.jalali_day > days_in_month(x.jalali_month) {
        Some(PartyError::BadOccasionDay(row))
    } else if x.remind_days_before < 0 || x.remind_days_before > 365 {
        Some(PartyError::BadReminder(row))
    } else {
        None
    }
}

/// The first occasion, from `i` on, that breaks a rule, with its error.
pub open spec fn first_occasion_error(o: Seq<OccasionInput>, i: int) -> Option<PartyError>
    decreases o.len() - i,
{
    if i < 0 || i >= o.len() {
        None
    } else if occasion_error(o, i) is Some {
        occasion_error(o, i)
    } else {
        first_occasion_error(o, i + 1)
    }
}

/// A minimal but real e-mail check: exactly one `@`, something before it,
/// and a dot after it.
pub open spec fn email_ok(e: Seq<char>) -> bool {
    let parts = split_seq(e, '@');
    parts.len() == 2 && parts[0].len() > 0 && parts[1].contains('.')
}

/// The checks on the e-mail and the shop login.
pub open spec fn contact_error(input: PartyInput) -> Option<PartyError> {
    if cleaned(input.email) matches Some(e) && !email_ok(e) {
        Some(PartyError::BadEmail)
    } else if cleaned(input.portal_username) is Some {
        if cleaned(input.portal_username)->0.len() < 4 {
            Some(PartyError::ShortUsername)
        } else if cleaned(input.portal_password) is Some && cleaned(input.portal_password)->0.len() < 8 {
            Some(PartyError::ShortPassword)
        } else {
            None
        }
    } else if cleaned(input.portal_password) is Some {
        Some(PartyError::PasswordWithoutUsername)
    } else {
        None
    }
}

/// The outcome of checking the tabs of the party form, in order: phones
/// (none blank, at most one primary), bank accounts (a bank name, valid IBAN
/// and card number where given, at most one default), images (a path, at
/// most one primary), occasions (a title, a month of the year, a day that the
/// month has, a reminder within a year), then e-mail and shop login.
/// `iban_valid[i]` and `card_valid[i]` say whether the cleaned IBAN and card
/// number of bank account `i` pass their check digits.
pub open spec fn tabs_check(input: PartyInput, iban_valid: Seq<bool>, card_valid: Seq<bool>) -> Result<(), PartyError> {
    let p = input.phones@;
    let b = input.bank_accounts@;
    let m = input.images@;
    let o = input.occasions@;
    if first_blank_phone(p, 0) is Some {
        Err(PartyError::EmptyPhone((first_blank_phone(p, 0)->0 + 1) as usize))
    } else if primary_phones(p, p.len() as int) > 1 {
        Err(PartyError::SeveralPrimaryPhones)
    } else if first_bank_error(b, iban_valid, card_valid, 0) is Some {
        Err(first_bank_error(b, iban_valid, card_valid, 0)->0)
    } else if default_accounts(b, b.len() as int) > 1 {
        Err(PartyError::SeveralDefaultAccounts)
    } else if first_blank_image(m, 0) is Some {
        Err(PartyError::EmptyImagePath)
    } else if primary_images(m, m.len() as int) > 1 {
        Err(PartyError::SeveralPrimaryImages)
    } else if first_occasion_error(o, 0) is Some {
        Err(first_occasion_error(o, 0)->0)
    } else if contact_error(input) is Some {
        Err(contact_error(input)->0)
    } else {
        Ok(())
    }
}

fn check_phones(p: &Vec<PhoneInput>) -> (r: Result<(), PartyError>)
    ensures
        r == (if first_blank_phone(p@, 0) is Some {
            Err(PartyError::EmptyPhone((first_blank_phone(p@, 0)->0 + 1) as usize))
        } else if primary_phones(p@, p@.len() as int) > 1 {
            Err(PartyError::SeveralPrimaryPhones)
        } else {
            Ok(())
        }),
{
    let mut primary: usize = 0;
    let mut i: usize = 0;
    while i < p.len()
        invariant
            0 <= i <= p@.len(),
            first_blank_phone(p@, 0) == first_blank_phone(p@, i as int),
            primary == primary_phones(p@, i as int),
            primary <= i,
        decreases p@.len() - i,
    {
        if blank(p[i].number.as_str()) {
            return Err(PartyError::EmptyPhone(i + 1));
        }
        if p[i].is_primary {
            primary = primary + 1;
        }
        i = i + 1;
    }
    if primary > 1 {
        Err(PartyError::SeveralPrimaryPhones)
    } else {
        Ok(())
    }
}

fn check_banks(b: &Vec<BankAccountInput>, iban_valid: &Vec<bool>, card_valid: &Vec<bool>) -> (r: Result<(), PartyError>)
    requires
        iban_valid@.len() == b@.len(),
        card_valid@.len() == b@.len(),
    ensures
        r == (if first_bank_error(b@, iban_valid@, card_valid@, 0) is Some {
            Err(first_bank_error(b@, iban_valid@, card_valid@, 0)->0)
        } else if default_accounts(b@, b@.len() as int) > 1 {
            Err(PartyError::SeveralDefaultAccounts)
        } else {
            Ok(())
        }),
{
    let mut defaults: usize = 0;
    let mut i: usize = 0;
    while i < b.len()
        invariant
            0 <= i <= b@.len(),
            iban_valid@.len() == b@.len(),
            card_valid@.len() == b@.len(),
            first_bank_error(b@, iban_valid@, card_valid@, 0) == first_bank_error(b@, iban_valid@, card_valid@, i as int),
            defaults == default_accounts(b@, i as int),
            defaults <= i,
        decreases b@.len() - i,
    {
        let a = &b[i];
        if blank(a.bank_name.as_str()) {
            return Err(PartyError::EmptyBankName(i + 1));
        }
        if clean(&a.iban).is_some() && !iban_valid[i] {
            return Err(PartyError::BadIban(i + 1));
        }
        if clean(&a.card_number).is_some() && !card_valid[i] {
            return Err(PartyError::BadCard(i + 1));
        }
        if a.is_default {
            defaults = defaults + 1;
        }
        i = i + 1;
    }
    if defaults > 1 {
        Err(PartyError::SeveralDefaultAccounts)
    } else {
        Ok(())
    }
}

fn check_images(m: &Vec<ImageInput>) -> (r: Result<(), PartyError>)
    ensures
        r == (if first_blank_image(m@, 0) is Some {
            Err(PartyError::EmptyImagePath)
        } else if primary_images(m@, m@.len() as int) > 1 {
            Err(PartyError::SeveralPrimaryImages)
        } else {
            Ok(())
        }),
{
    let mut primary: usize = 0;
    let mut i: usize = 0;
    while i < m.len()
        invariant
            0 <= i <= m@.len(),
            first_blank_image(m@, 0) == first_blank_image(m@, i as int),
            primary == primary_images(m@, i as int),
            primary <= i,
        decreases m@.len() - i,
    {
        if blank(m[i].file_path.as_str()) {
            return Err(PartyError::EmptyImagePath);
        }
        if m[i].is_primary {
            primary = primary + 1;
        }
        i = i + 1;
    }
    if primary > 1 {
        Err(PartyError::SeveralPrimaryImages)
    } else {
        Ok(())
    }
}

fn check_occasions(o: &Vec<OccasionInput>) -> (r: Result<(), PartyError>)
    ensures
        r == (if first_occasion_error(o@, 0) is Some {
            Err(first_occasion_error(o@, 0)->0)
        } else {
            Ok(())
        }),
{
    let mut i: usize = 0;
    while i < o.len()
        invariant
            0 <= i <= o@.len(),
            first_occasion_error(o@, 0) == first_occasion_error(o@, i as int),
        decreases o@.len() - i,
    {
        let x = &o[i];
        let row = i + 1;
        if blank(x.title.as_str()) {
            return Err(PartyError::EmptyOccasionTitle(row));
        }
        if !(x.jalali_month >= 1 && x.jalali_month <= 12) {
            return Err(PartyError::BadOccasionMonth(row));
        }
        let max_day: i64 = if x.jalali_month <= 6 {
            31
        } else {
            30
        };
        if x.jalali_day < 1 || x.jalali_day > max_day {
            return Err(PartyError::BadOccasionDay(row));
        }
        if x.remind_days_before < 0 || x.remind_days_before > 365 {
            return Err(PartyError::BadReminder(row));
        }
        i = i + 1;
    }
    Ok(())
}

fn email_valid(e: &str) -> (r: bool)
    ensures
        r == email_ok(e@),
{
    let v = chars_of(e);
    let n = v.len();
    proof {
        assert(v@.subrange(0, n as int) =~= v@);
    }
    let parts = split_ranges(&v, 0, n, '@');
    if parts.len() != 2 {
        return false;
    }
    let (a0, b0) = parts[0];
    let (a1, b1) = parts[1];
    b0 > a0 && has_char_in(&v, a1, b1, '.')
}

fn check_contact(input: &PartyInput) -> (r: Result<(), PartyError>)
    ensures
        r == (if contact_error(*input) is Some {
            Err(contact_error(*input)->0)
        } else {
            Ok(())
        }),
{
    match clean(&input.email) {
        Some(e) => {
            if !email_valid(e.as_str()) {
                return Err(PartyError::BadEmail);
            }
        },
        None => {},
    }
    match clean(&input.portal_username) {
        Some(u) => {
            if u.as_str().unicode_len() < 4 {
                return Err(PartyError::ShortUsername);
            }
            match clean(&input.portal_password) {
                Some(pw) => {
                    if pw.as_str().unicode_len() < 8 {
                        return Err(PartyError::ShortPassword);
                    }
                },
                None => {},
            }
            Ok(())
        },
        None => {
            if clean(&input.portal_password).is_some() {
                Err(PartyError::PasswordWithoutUsername)
            } else {
                Ok(())
            }
        },
    }
}

/// Checks the tabs of the party form that the party rules themselves do not
/// cover. `iban_valid` and `card_valid` hold, for each bank account, whether
/// its cleaned IBAN and card number pass their check digits.
pub fn validate_tabs(input: &PartyInput, iban_valid: &Vec<bool>, card_valid: &Vec<bool>) -> (r: Result<(), PartyError>)
    requires
        iban_valid@.len() == input.bank_accounts@.len(),
        card_valid@.len() == input.bank_accounts@.len(),
    ensures
        r == tabs_check(*input, iban_valid@, card_valid@),
{
    check_phones(&input.phones)?;
    check_banks(&input.bank_accounts, iban_valid, card_valid)?;
    check_images(&input.images)?;
    check_occasions(&input.occasions)?;
    check_contact(input)
}

/// The checks on a party group: a code and a title, and a group is never its
/// own parent (a loop in the tree would lock the page).
pub fn check_party_group(id: &Option<String>, code: &str, title: &str, parent_id: &Option<String>) -> (r: Result<(), PartyError>)
    ensures
        (is_blank(code@) || is_blank(title@)) ==> r == Err::<(), PartyError>(PartyError::MissingGroupCodeOrTitle),
        !(is_blank(code@) || is_blank(title@)) && (id matches Some(a) && parent_id matches Some(b) && a@ == b@) ==> r == Err::<(), PartyError>(PartyError::GroupOwnParent),
        !(is_blank(code@) || is_blank(title@)) && !(id matches Some(a) && parent_id matches Some(b) && a@ == b@) ==> r is Ok,
{
    if blank(code) || blank(title) {
        return Err(PartyError::MissingGroupCodeOrTitle);
    }
    match (id, parent_id) {
        (Some(a), Some(b)) => if same_text(a.as_str(), b.as_str()) {
            return Err(PartyError::GroupOwnParent);
        },
        _ => {},
    }
    Ok(())
}

/// The permission that saving a party needs.
pub fn party_permission(input: &PartyInput) -> (r: &'static str)
    ensures
        input.id is Some ==> r@ == "contacts.update"@,
        input.id is None ==> r@ == "contacts.create"@,
{
    if input.id.is_some() {
        "contacts.update"
    } else {
        "contacts.create"
    }
}

/// A new party is active unless the form says otherwise.
pub fn default_true() -> (r: bool)
    ensures
        r,
{
    true
}

/// Checks the month asked of the upcoming occasions list; a month outside
/// 1 to 12 is refused (PRT-019, reported without a row).
pub fn check_occasion_month(month: i64) -> (r: bool)
    ensures
        r == (1 <= month <= 12),
{
    1 <= month && month <= 12
}

} // verus!
