use desktop_host::settings::{
    find_definition, read_boolean, read_integer, read_setting, registry, required_permission,
    setting_with_value, validate, SettingError, SettingKind,
};

#[test]
fn registry_has_thirty_settings_with_valid_defaults() {
    let all = registry();
    assert_eq!(all.len(), 30);
    for definition in &all {
        let normalized = validate(definition, definition.default_value).unwrap();
        assert_eq!(normalized, definition.default_value);
    }
}

#[test]
fn registry_keys_are_unique() {
    let all = registry();
    for (i, a) in all.iter().enumerate() {
        for b in all.iter().skip(i + 1) {
            assert_ne!(a.key, b.key);
        }
    }
}

#[test]
fn boolean_values_are_normalized() {
    let d = find_definition("appearance.dark_mode").unwrap();
    assert_eq!(d.kind, SettingKind::Boolean);
    assert_eq!(validate(&d, " YES ").unwrap(), "true");
    assert_eq!(validate(&d, "On").unwrap(), "true");
    assert_eq!(validate(&d, "0").unwrap(), "false");
    assert_eq!(validate(&d, "off").unwrap(), "false");
    assert_eq!(validate(&d, "maybe"), Err(SettingError::NotBoolean));
}

#[test]
fn integer_values_are_bounded() {
    let d = find_definition("printing.copies").unwrap();
    assert_eq!(validate(&d, " 3 ").unwrap(), "3");
    assert_eq!(validate(&d, "+4").unwrap(), "4");
    assert_eq!(validate(&d, "0"), Err(SettingError::BelowMinimum(1)));
    assert_eq!(validate(&d, "6"), Err(SettingError::AboveMaximum(5)));
    assert_eq!(validate(&d, "two"), Err(SettingError::NotInteger));
    assert_eq!(validate(&d, "99999999999999999999"), Err(SettingError::NotInteger));
}

#[test]
fn choice_values_must_be_listed() {
    let d = find_definition("inventory_valuation_method").unwrap();
    assert_eq!(validate(&d, " fifo ").unwrap(), "fifo");
    assert_eq!(validate(&d, "FIFO"), Err(SettingError::UnknownChoice));
}

#[test]
fn coding_scheme_text_is_checked() {
    let d = find_definition("coding.level_widths").unwrap();
    assert_eq!(validate(&d, "1, 2,2 ,3").unwrap(), "1, 2,2 ,3");
    assert_eq!(validate(&d, "1,x"), Err(SettingError::BadCodingList));
    assert_eq!(validate(&d, "1,,2"), Err(SettingError::BadCodingList));
    assert_eq!(validate(&d, "1,7"), Err(SettingError::BadCodingWidth));
    assert_eq!(validate(&d, "0"), Err(SettingError::BadCodingWidth));
    assert_eq!(validate(&d, "   "), Err(SettingError::Empty));
}

#[test]
fn other_text_values_are_trimmed() {
    let d = find_definition("company.phone").unwrap();
    assert_eq!(validate(&d, "  021-1234  ").unwrap(), "021-1234");
    assert_eq!(validate(&d, ""), Err(SettingError::Empty));
}

#[test]
fn image_values_are_data_urls() {
    let d = find_definition("company.logo").unwrap();
    assert_eq!(validate(&d, "  ").unwrap(), "");
    assert_eq!(validate(&d, "data:image/png;base64,AAAA").unwrap(), "data:image/png;base64,AAAA");
    assert_eq!(validate(&d, "http://x/logo.png"), Err(SettingError::NotImage));
    assert_eq!(validate(&d, "data:image/png,AAAA"), Err(SettingError::NotImage));
    let big = format!("data:image/png;base64,{}", "A".repeat(1_400_000));
    assert_eq!(validate(&d, &big), Err(SettingError::ImageTooLarge));
}

#[test]
fn validation_is_idempotent_on_examples() {
    let d = find_definition("appearance.rows_per_page").unwrap();
    let once = validate(&d, " +050 ").unwrap();
    assert_eq!(once, "50");
    assert_eq!(validate(&d, &once).unwrap(), once);
}

#[test]
fn unknown_keys_are_not_found() {
    assert!(find_definition("no.such.key").is_none());
    assert_eq!(read_setting("no.such.key", None), "");
    assert_eq!(read_integer("no.such.key", Some(" 12 ".to_string())), 12);
    assert_eq!(read_integer("no.such.key", Some("x".to_string())), 0);
}

#[test]
fn reading_falls_back_to_default_and_clamps() {
    assert_eq!(read_setting("checks.due_soon_days", None), "7");
    assert_eq!(read_setting("checks.due_soon_days", Some("9".into())), "9");
    assert_eq!(read_integer("checks.due_soon_days", None), 7);
    assert_eq!(read_integer("checks.due_soon_days", Some("1000".into())), 180);
    assert_eq!(read_integer("checks.due_soon_days", Some("-5".into())), 1);
    assert_eq!(read_integer("checks.due_soon_days", Some("junk".into())), 7);
}

#[test]
fn booleans_read_loosely() {
    assert!(read_boolean("appearance.dark_mode", None));
    assert!(!read_boolean("appearance.sidebar_collapsed", None));
    assert!(read_boolean("appearance.sidebar_collapsed", Some(" ON ".into())));
    assert!(!read_boolean("appearance.sidebar_collapsed", Some("nope".into())));
}

#[test]
fn customised_values_are_flagged() {
    let d = find_definition("printing.copies").unwrap();
    let same = setting_with_value(d.clone(), Some("1".into()));
    assert_eq!(same.value, "1");
    assert!(!same.is_customized);
    let changed = setting_with_value(d.clone(), Some("2".into()));
    assert!(changed.is_customized);
    let unset = setting_with_value(d, None);
    assert_eq!(unset.value, "1");
    assert!(!unset.is_customized);
}

#[test]
fn sensitive_settings_need_a_manager() {
    let d = find_definition("inventory.allow_negative_stock").unwrap();
    assert_eq!(required_permission(&d), Some("accounting.journal.create"));
    let d = find_definition("appearance.language").unwrap();
    assert_eq!(required_permission(&d), None);
}

#[test]
fn saved_settings_read_back_as_saved() {
    let d = find_definition("quotes.default_validity_days").unwrap();
    let stored = validate(&d, " +045 ").unwrap();
    assert_eq!(stored, "45");
    assert_eq!(read_integer(d.key, Some(stored.clone())), 45);
    assert_eq!(read_setting(d.key, Some(stored)), "45");
    let b = find_definition("appearance.dark_mode").unwrap();
    let on = validate(&b, "On").unwrap();
    assert!(read_boolean(b.key, Some(on)));
    let off = validate(&b, " no").unwrap();
    assert!(!read_boolean(b.key, Some(off)));
}

#[test]
fn registry_entries_carry_their_texts() {
    let all = registry();
    assert_eq!(all[0].group, "inventory");
    assert_eq!(all[0].group_label, "انبار");
    assert_eq!(all[0].label, "روش ارزش\u{200c}گذاری موجودی");
    assert_eq!(all[0].choices[1].label, "اولین صادره از اولین وارده (FIFO)");
    let d = find_definition("printing.copies").unwrap();
    assert_eq!(d.group, "printing");
}
