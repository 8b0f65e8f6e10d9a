use desktop_host::parties::{
    check_party_group, default_true, party_permission, validate_tabs, BankAccountInput,
    ImageInput, OccasionInput, PartyError, PartyInput, PhoneInput,
};

fn empty() -> PartyInput {
    PartyInput {
        id: None,
        code: None,
        party_type: "natural".into(),
        party_function: "customer".into(),
        title_prefix: None,
        first_name: None,
        last_name: None,
        company_name: None,
        national_id: None,
        economic_code: None,
        group_id: None,
        route_id: None,
        marketer_id: None,
        opening_date: None,
        is_customer: true,
        is_supplier: false,
        is_active: default_true(),
        mobile: None,
        email: None,
        website: None,
        province: None,
        city: None,
        address: None,
        postal_code: None,
        phones: vec![],
        bank_accounts: vec![],
        images: vec![],
        portal_username: None,
        portal_password: None,
        job_title: None,
        introduction: None,
        credit_limit: 0,
        note: None,
        occasions: vec![],
    }
}

fn bank(name: &str, default: bool) -> BankAccountInput {
    BankAccountInput { bank_name: name.into(), branch_name: None, account_number: None, iban: Some("IR1".into()), card_number: None, holder_name: None, is_default: default }
}

fn check(p: &PartyInput) -> Result<(), PartyError> {
    let n = p.bank_accounts.len();
    validate_tabs(p, &vec![true; n], &vec![true; n])
}

#[test]
fn empty_form_passes() {
    assert_eq!(check(&empty()), Ok(()));
}

#[test]
fn phone_rules() {
    let mut p = empty();
    p.phones = vec![PhoneInput { title: None, number: "021".into(), is_primary: true }, PhoneInput { title: None, number: " ".into(), is_primary: false }];
    assert_eq!(check(&p), Err(PartyError::EmptyPhone(2)));
    p.phones[1].number = "022".into();
    p.phones[1].is_primary = true;
    assert_eq!(check(&p), Err(PartyError::SeveralPrimaryPhones));
}

#[test]
fn bank_rules() {
    let mut p = empty();
    p.bank_accounts = vec![bank("Melli", true), bank(" ", false)];
    assert_eq!(check(&p), Err(PartyError::EmptyBankName(2)));
    p.bank_accounts[1].bank_name = "Mellat".into();
    assert_eq!(validate_tabs(&p, &vec![true, false], &vec![true, true]), Err(PartyError::BadIban(2)));
    p.bank_accounts[1].card_number = Some("6037".into());
    assert_eq!(validate_tabs(&p, &vec![true, true], &vec![true, false]), Err(PartyError::BadCard(2)));
    p.bank_accounts[1].is_default = true;
    assert_eq!(check(&p), Err(PartyError::SeveralDefaultAccounts));
}

#[test]
fn image_rules() {
    let mut p = empty();
    p.images = vec![ImageInput { title: None, file_path: "a.png".into(), is_primary: true }, ImageInput { title: None, file_path: "b.png".into(), is_primary: true }];
    assert_eq!(check(&p), Err(PartyError::SeveralPrimaryImages));
    p.images[1].file_path = "".into();
    assert_eq!(check(&p), Err(PartyError::EmptyImagePath));
}

#[test]
fn occasion_rules() {
    let mut p = empty();
    let o = |m: i64, d: i64, r: i64| OccasionInput { title: "birthday".into(), jalali_month: m, jalali_day: d, remind_days_before: r };
    p.occasions = vec![o(6, 31, 3)];
    assert_eq!(check(&p), Ok(()));
    p.occasions = vec![o(7, 31, 3)];
    assert_eq!(check(&p), Err(PartyError::BadOccasionDay(1)));
    p.occasions = vec![o(1, 1, 0), o(13, 1, 0)];
    assert_eq!(check(&p), Err(PartyError::BadOccasionMonth(2)));
    p.occasions = vec![o(12, 30, 366)];
    assert_eq!(check(&p), Err(PartyError::BadReminder(1)));
    p.occasions = vec![OccasionInput { title: " ".into(), jalali_month: 1, jalali_day: 1, remind_days_before: 0 }];
    assert_eq!(check(&p), Err(PartyError::EmptyOccasionTitle(1)));
}

#[test]
fn email_and_login_rules() {
    let mut p = empty();
    p.email = Some(" ali@example.com ".into());
    assert_eq!(check(&p), Ok(()));
    for bad in ["ali.example.com", "@example.com", "ali@example", "a@b@c.d"] {
        p.email = Some(bad.into());
        assert_eq!(check(&p), Err(PartyError::BadEmail), "{bad}");
    }
    p.email = None;
    p.portal_username = Some("abc".into());
    assert_eq!(check(&p), Err(PartyError::ShortUsername));
    p.portal_username = Some("abcd".into());
    p.portal_password = Some("1234567".into());
    assert_eq!(check(&p), Err(PartyError::ShortPassword));
    p.portal_password = Some("12345678".into());
    assert_eq!(check(&p), Ok(()));
    p.portal_username = None;
    assert_eq!(check(&p), Err(PartyError::PasswordWithoutUsername));
}

#[test]
fn group_rules() {
    assert_eq!(check_party_group(&None, " ", "t", &None), Err(PartyError::MissingGroupCodeOrTitle));
    assert_eq!(check_party_group(&Some("g1".into()), "c", "t", &Some("g1".into())), Err(PartyError::GroupOwnParent));
    assert_eq!(check_party_group(&Some("g1".into()), "c", "t", &Some("g2".into())), Ok(()));
    let mut p = empty();
    assert_eq!(party_permission(&p), "contacts.create");
    p.id = Some("x".into());
    assert_eq!(party_permission(&p), "contacts.update");
}

#[test]
fn occasion_month_range() {
    assert!(desktop_host::parties::check_occasion_month(1));
    assert!(desktop_host::parties::check_occasion_month(12));
    assert!(!desktop_host::parties::check_occasion_month(0));
    assert!(!desktop_host::parties::check_occasion_month(13));
}
