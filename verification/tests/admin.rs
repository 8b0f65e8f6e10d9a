use argon2::password_hash::{PasswordHasher, SaltString};
use desktop_host::admin::{
    authenticate, check_contact_row, check_custom_report, check_import_entity, check_import_size,
    check_manifest, check_print_template, check_product_row, existing_id, import_permission,
    manifest_permission_at, register_manifest, valid_backup_name, AuthError, DesignError, ImportContactRow, ImportError,
    ImportProductRow, ImportedRow, PluginManifest,
};
use desktop_host::admin::import_rows as read_rows;
use desktop_host::integrations::PluginError;

#[test]
fn sign_in_with_argon2() {
    let salt = SaltString::from_b64("c2FsdHNhbHRzYWx0").unwrap();
    let hash = argon2::Argon2::default().hash_password(b"secret-pass", &salt).unwrap().to_string();
    assert_eq!(authenticate(&hash, "secret-pass"), Ok(()));
    assert_eq!(authenticate(&hash, "wrong"), Err(AuthError::WrongCredentials));
    assert_eq!(authenticate("not a hash", "x"), Err(AuthError::BadStoredHash));
    assert_eq!(authenticate("", "x"), Err(AuthError::BadStoredHash));
}

#[test]
fn saved_reports() {
    assert_eq!(check_custom_report(" ", "sales", "{}"), Err(DesignError::MissingReportName));
    assert_eq!(check_custom_report(&"ب".repeat(121), "sales", "{}"), Err(DesignError::ReportNameTooLong));
    assert_eq!(check_custom_report(&"ب".repeat(120), "sales", "{}"), Ok(()));
    assert_eq!(check_custom_report("r", "sales", &" ".repeat(100_001)), Err(DesignError::ConfigTooLarge));
    assert_eq!(check_custom_report("r", "hr", "{}"), Err(DesignError::BadReportSource));
    assert_eq!(check_custom_report("r", "trial", "{oops"), Err(DesignError::ConfigNotJson));
    assert_eq!(check_custom_report("r", "ledger", "[1, 2]"), Ok(()));
    assert_eq!(existing_id(&Some("  ".into())), None);
    assert_eq!(existing_id(&Some("r1".into())), Some("r1".to_string()));
}

#[test]
fn print_templates() {
    assert_eq!(check_print_template("a", "invoice", " "), Err(DesignError::MissingTemplateNameOrContent));
    assert_eq!(check_print_template("a", "poster", "<p/>"), Err(DesignError::BadTemplateType));
    assert_eq!(check_print_template("a", "label", "<p/>"), Ok(()));
}

#[test]
fn backup_names() {
    assert!(valid_backup_name("backup-1403.sqlite"));
    assert!(!valid_backup_name("../x.sqlite"));
    assert!(!valid_backup_name("dir/x.sqlite"));
    assert!(!valid_backup_name("dir\\x.sqlite"));
    assert!(!valid_backup_name("x.db"));
    assert!(!valid_backup_name("a..b.sqlite"));
}

#[test]
fn import_rows() {
    assert_eq!(check_import_entity("invoices"), Err(ImportError::UnsupportedEntity));
    assert_eq!(check_import_entity("contacts"), Ok(()));
    assert_eq!(import_permission("contacts"), "contacts.create");
    assert_eq!(import_permission("products"), "products.create");
    assert_eq!(check_import_size(0), Err(ImportError::NoRows));
    assert_eq!(check_import_size(10_001), Err(ImportError::TooManyRows));
    assert_eq!(check_import_size(10_000), Ok(()));
    let row = ImportContactRow { name: Some("  Ali ".into()), kind: None, mobile: None, is_customer: Some(true), is_supplier: None };
    let c = check_contact_row(&row, 0).unwrap();
    assert_eq!((c.name.as_str(), c.kind.as_str(), c.is_customer, c.is_supplier), ("Ali", "person", true, false));
    let row = ImportContactRow { name: None, kind: None, mobile: None, is_customer: None, is_supplier: None };
    assert_eq!(check_contact_row(&row, 4).unwrap_err(), ImportError::MissingContactName(5));
    let row = ImportContactRow { name: Some("A".into()), kind: Some("robot".into()), mobile: None, is_customer: None, is_supplier: None };
    assert_eq!(check_contact_row(&row, 1).unwrap_err(), ImportError::BadContactKind(2));
    let p = ImportProductRow { sku: Some(" S1 ".into()), name: Some("Pen".into()), unit: None, sale_price: Some(5), purchase_price: None, min_stock_negative: false, barcode: None };
    let x = check_product_row(&p, 0).unwrap();
    assert_eq!((x.sku.as_str(), x.unit.as_str(), x.sale_price, x.purchase_price), ("S1", "عدد", 5, 0));
    let p = ImportProductRow { sku: Some("S1".into()), name: Some("Pen".into()), unit: None, sale_price: Some(-5), purchase_price: None, min_stock_negative: false, barcode: None };
    assert_eq!(check_product_row(&p, 2).unwrap_err(), ImportError::NegativeAmount(3));
    let p = ImportProductRow { sku: None, name: Some("Pen".into()), unit: None, sale_price: None, purchase_price: None, min_stock_negative: false, barcode: None };
    assert_eq!(check_product_row(&p, 0).unwrap_err(), ImportError::MissingSkuOrName(1));
}

fn manifest() -> PluginManifest {
    PluginManifest {
        id: Some("report-pack".into()),
        name: Some("Reports".into()),
        version: Some("1.0".into()),
        description: None,
        entrypoint: None,
        permissions: Some(vec![Some("database.read".into())]),
    }
}

#[test]
fn plugin_manifests() {
    let ok = check_manifest(&manifest()).unwrap();
    assert_eq!(ok.entrypoint, "worker");
    assert_eq!(ok.description, None);
    assert_eq!(ok.permissions, vec!["database.read".to_string()]);
    let mut m = manifest();
    m.id = None;
    assert_eq!(check_manifest(&m).unwrap_err(), PluginError::MissingId);
    let mut m = manifest();
    m.id = Some("a/b".into());
    assert_eq!(check_manifest(&m).unwrap_err(), PluginError::BadId);
    let mut m = manifest();
    m.version = None;
    assert_eq!(check_manifest(&m).unwrap_err(), PluginError::MissingVersion);
    let mut m = manifest();
    m.entrypoint = Some("..".into());
    assert_eq!(check_manifest(&m).unwrap_err(), PluginError::BadEntrypoint);
    let mut m = manifest();
    m.permissions = Some(vec![Some("network".into()), None]);
    assert_eq!(check_manifest(&m).unwrap_err(), PluginError::PermissionNotText(1));
    let mut m = manifest();
    m.permissions = Some(vec![Some("root".into())]);
    assert_eq!(check_manifest(&m).unwrap_err(), PluginError::UnsupportedPermission(0));
}

#[test]
fn import_rows_from_json_text() {
    assert_eq!(read_rows("invoices", "[]").unwrap_err(), ImportError::UnsupportedEntity);
    assert_eq!(read_rows("contacts", "{oops").unwrap_err(), ImportError::BadRows);
    assert_eq!(read_rows("contacts", r#"{"name":"A"}"#).unwrap_err(), ImportError::BadRows);
    assert_eq!(read_rows("products", "[]").unwrap_err(), ImportError::NoRows);
    let many = format!("[{}]", vec!["{}"; 10_001].join(","));
    assert_eq!(read_rows("contacts", &many).unwrap_err(), ImportError::TooManyRows);

    let rows = read_rows(
        "contacts",
        r#"[{"name":" Ali ","is_customer":true,"mobile":"0912","kind":"company"},{"name":"  "},5,{"name":"B","kind":"robot"}]"#,
    )
    .unwrap();
    assert_eq!(rows.len(), 4);
    match &rows[0] {
        Ok(ImportedRow::Contact(c)) => {
            assert_eq!(c.name, "Ali");
            assert_eq!(c.kind, "company");
            assert_eq!(c.mobile, Some("0912".to_string()));
            assert!(c.is_customer);
            assert!(!c.is_supplier);
        }
        other => panic!("unexpected row {other:?}"),
    }
    assert_eq!(rows[1].as_ref().unwrap_err(), &ImportError::MissingContactName(2));
    assert_eq!(rows[2].as_ref().unwrap_err(), &ImportError::MissingContactName(3));
    assert_eq!(rows[3].as_ref().unwrap_err(), &ImportError::BadContactKind(4));

    let rows = read_rows(
        "products",
        r#"[{"sku":" S1 ","name":"Pen","sale_price":5,"min_stock":"x"},{"sku":"S2","name":"Ink","min_stock":-0.5},{"sku":"S3","name":"Cap","sale_price":5.0,"min_stock":2.5,"unit":"box"},{"sku":"S4","name":"Box","purchase_price":-3},{"name":"NoSku"}]"#,
    )
    .unwrap();
    match &rows[0] {
        Ok(ImportedRow::Product(p, min)) => {
            assert_eq!((p.sku.as_str(), p.unit.as_str(), p.sale_price, p.purchase_price), ("S1", "عدد", 5, 0));
            assert_eq!(*min, None);
        }
        other => panic!("unexpected row {other:?}"),
    }
    assert_eq!(rows[1].as_ref().unwrap_err(), &ImportError::NegativeAmount(2));
    match &rows[2] {
        Ok(ImportedRow::Product(p, min)) => {
            assert_eq!((p.unit.as_str(), p.sale_price), ("box", 0));
            assert_eq!(min.as_deref(), Some("2.5"));
        }
        other => panic!("unexpected row {other:?}"),
    }
    assert_eq!(rows[3].as_ref().unwrap_err(), &ImportError::NegativeAmount(4));
    assert_eq!(rows[4].as_ref().unwrap_err(), &ImportError::MissingSkuOrName(5));
}

#[test]
fn plugin_manifest_from_json_text() {
    assert_eq!(register_manifest("{oops").unwrap_err(), PluginError::BadManifest);
    assert_eq!(register_manifest("[1]").unwrap_err(), PluginError::MissingId);
    assert_eq!(register_manifest(r#"{"id":5,"name":"n","version":"1"}"#).unwrap_err(), PluginError::MissingId);
    assert_eq!(register_manifest(r#"{"id":"a b","name":"n","version":"1"}"#).unwrap_err(), PluginError::BadId);
    assert_eq!(register_manifest(r#"{"id":"p","version":"1"}"#).unwrap_err(), PluginError::MissingName);
    assert_eq!(register_manifest(r#"{"id":"p","name":"n"}"#).unwrap_err(), PluginError::MissingVersion);
    assert_eq!(
        register_manifest(r#"{"id":"p","name":"n","version":"1","entrypoint":"a/b"}"#).unwrap_err(),
        PluginError::BadEntrypoint
    );
    assert_eq!(
        register_manifest(r#"{"id":"p","name":"n","version":"1","permissions":["network",3]}"#).unwrap_err(),
        PluginError::PermissionNotText(1)
    );
    assert_eq!(
        register_manifest(r#"{"id":"p","name":"n","version":"1","permissions":["root"]}"#).unwrap_err(),
        PluginError::UnsupportedPermission(0)
    );
    let ok = register_manifest(
        r#"{"id":"report-pack","name":"Reports","version":"1.0","description":"d","entrypoint":"run","permissions":["database.read","network"]}"#,
    )
    .unwrap();
    assert_eq!((ok.id.as_str(), ok.name.as_str(), ok.version.as_str()), ("report-pack", "Reports", "1.0"));
    assert_eq!(ok.description, Some("d".to_string()));
    assert_eq!(ok.entrypoint, "run");
    assert_eq!(ok.permissions, vec!["database.read".to_string(), "network".to_string()]);
    let ok = register_manifest(r#"{"id":"p","name":"n","version":"1","permissions":"network"}"#).unwrap();
    assert_eq!(ok.entrypoint, "worker");
    assert!(ok.permissions.is_empty());
}

#[test]
fn manifest_permission_names() {
    let text = r#"{"id":"p","permissions":["network","root",3]}"#;
    assert_eq!(manifest_permission_at(text, 1), Some("root".to_string()));
    assert_eq!(manifest_permission_at(text, 2), None);
    assert_eq!(manifest_permission_at(text, 3), None);
    assert_eq!(manifest_permission_at("{oops", 0), None);
}
