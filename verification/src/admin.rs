//! Checks around the administration pages: signing in, saved reports,
//! print templates, restoring a backup, bulk import and plugin manifests.
use vstd::prelude::*;
use vstd::string::StringSliceAdditionalSpecFns;
use argon2::PasswordVerifier;
use crate::integrations::{validate_plugin_id, plugin_id_ok, PluginError};
use crate::json::{
    fields_view, flag_at, flag_field, int_at, int_field, is_negative_number, json_object, json_object_rows,
    list_at, number_at, find_field, number_field, number_negative, opt_chars, parse_json_object, parse_json_rows, text_at,
    text_field, JsonField, JsonFieldView,
};
use crate::text::{
    blank, chars_of, contains_in, contains_seq, is_blank, same_text, starts_with_seq, trim,
    trim_seq, has_char_in,
};

verus! {

broadcast use vstd::string::group_string_axioms;

/// The outcome of checking a password against a stored hash.
#[derive(Debug, Clone, Copy, PartialEq, Eq, Structural)]
pub enum PasswordCheck {
    /// The stored hash is not a PHC string.
    Malformed,
    Mismatch,
    Match,
}

/// Whether a stored hash parses as a PHC string.
pub uninterp spec fn phc_hash_parses(hash: Seq<char>) -> bool;

/// Whether Argon2 accepts `password` for the parsed hash `hash`.
pub uninterp spec fn argon2_accepts(hash: Seq<char>, password: Seq<u8>) -> bool;

/// Parses `hash` with `argon2::PasswordHash::new` and, where it parses,
/// checks `password` against it with `Argon2::verify_password`. The contract
/// claims that the outcome depends on the two texts alone, and, as the
/// parser's source shows, that an empty hash does not parse.
#[verifier::external_body]
fn check_password(hash: &str, password: &str) -> (r: PasswordCheck)
    ensures
        hash@.len() == 0 ==> r == PasswordCheck::Malformed,
        !phc_hash_parses(hash@) ==> r == PasswordCheck::Malformed,
        phc_hash_parses(hash@) && argon2_accepts(hash@, password.spec_bytes()) ==> r == PasswordCheck::Match,
        phc_hash_parses(hash@) && !argon2_accepts(hash@, password.spec_bytes()) ==> r == PasswordCheck::Mismatch,
{
    match argon2::PasswordHash::new(hash) {
        Ok(parsed) => match argon2::Argon2::default().verify_password(password.as_bytes(), &parsed) {
            Ok(()) => PasswordCheck::Match,
            Err(_) => PasswordCheck::Mismatch,
        },
        Err(_) => PasswordCheck::Malformed,
    }
}

/// Why signing in failed.
#[derive(Debug, Clone, Copy, PartialEq, Eq, Structural)]
pub enum AuthError {
    /// AUTH-003: wrong user name or password.
    WrongCredentials,
    /// AUTH-004: the stored sign-in data is not usable.
    BadStoredHash,
}

/// Checks a password against the hash stored for the user: a hash that does
/// not parse is refused as bad data, a password it does not accept as wrong.
pub fn authenticate(stored_hash: &str, password: &str) -> (r: Result<(), AuthError>)
    ensures
        !phc_hash_parses(stored_hash@) ==> r == Err::<(), AuthError>(AuthError::BadStoredHash),
        phc_hash_parses(stored_hash@) && !argon2_accepts(stored_hash@, password.spec_bytes()) ==> r == Err::<(), AuthError>(AuthError::WrongCredentials),
        phc_hash_parses(stored_hash@) && argon2_accepts(stored_hash@, password.spec_bytes()) ==> r is Ok,
{
    match check_password(stored_hash, password) {
        PasswordCheck::Malformed => Err(AuthError::BadStoredHash),
        PasswordCheck::Mismatch => Err(AuthError::WrongCredentials),
        PasswordCheck::Match => Ok(()),
    }
}

/// Why a saved report or a print template was refused.
#[derive(Debug, Clone, Copy, PartialEq, Eq, Structural)]
pub enum DesignError {
    /// REP-001
    MissingReportName,
    /// REP-002
    ReportNameTooLong,
    /// REP-003
    ConfigTooLarge,
    /// REP-004
    BadReportSource,
    /// REP-005
    ConfigNotJson,
    /// PRINT-001
    MissingTemplateNameOrContent,
    /// PRINT-002
    BadTemplateType,
}

/// The data sources a report may draw on.
pub open spec fn is_report_source(s: Seq<char>) -> bool {
    s == "sales"@ || s == "purchase"@ || s == "inventory"@ || s == "ledger"@ || s == "trial"@
}

/// Checks a saved report: a name of at most 120 characters, a configuration
/// of at most 100000 bytes that is JSON, and a known source.
pub fn check_custom_report(name: &str, source: &str, config_json: &str) -> (r: Result<(), DesignError>)
    ensures
        r == (if is_blank(name@) {
            Err(DesignError::MissingReportName)
        } else if name@.len() > 120 {
            Err(DesignError::ReportNameTooLong)
        } else if config_json.spec_bytes().len() > 100_000 {
            Err(DesignError::ConfigTooLarge)
        } else if !is_report_source(source@) {
            Err(DesignError::BadReportSource)
        } else if json_object(config_json@) is None {
            Err(DesignError::ConfigNotJson)
        } else {
            Ok(())
        }),
{
    if blank(name) {
        return Err(DesignError::MissingReportName);
    }
    if name.unicode_len() > 120 {
        return Err(DesignError::ReportNameTooLong);
    }
    if config_json.as_bytes().len() > 100_000 {
        return Err(DesignError::ConfigTooLarge);
    }
    if !(same_text(source, "sales") || same_text(source, "purchase") || same_text(source, "inventory")
        || same_text(source, "ledger") || same_text(source, "trial")) {
        return Err(DesignError::BadReportSource);
    }
    if parse_json_object(config_json).is_none() {
        return Err(DesignError::ConfigNotJson);
    }
    Ok(())
}

/// The id of an existing record to update: a given, non-blank id; a missing
/// or blank one means a new record.
pub fn existing_id(id: &Option<String>) -> (r: Option<String>)
    ensures
        r == (match id {
            Some(x) => if is_blank(x@) {
                None
            } else {
                Some(*x)
            },
            None => None,
        }),
{
    match id {
        Some(x) => if blank(x.as_str()) {
            None
        } else {
            Some(x.clone())
        },
        None => None,
    }
}

/// The kinds of print template.
pub open spec fn is_template_type(t: Seq<char>) -> bool {
    t == "invoice"@ || t == "receipt"@ || t == "journal"@ || t == "report"@ || t == "label"@
}

/// Checks a print template: a name, some content and a known kind.
pub fn check_print_template(name: &str, template_type: &str, content_html: &str) -> (r: Result<(), DesignError>)
    ensures
        r == (if is_blank(name@) || is_blank(content_html@) {
            Err(DesignError::MissingTemplateNameOrContent)
        } else if !is_template_type(template_type@) {
            Err(DesignError::BadTemplateType)
        } else {
            Ok(())
        }),
{
    if blank(name) || blank(content_html) {
        return Err(DesignError::MissingTemplateNameOrContent);
    }
    if !(same_text(template_type, "invoice") || same_text(template_type, "receipt") || same_text(
        template_type,
        "journal",
    ) || same_text(template_type, "report") || same_text(template_type, "label")) {
        return Err(DesignError::BadTemplateType);
    }
    Ok(())
}

/// `s` ends with `suffix`.
pub open spec fn ends_with_seq(s: Seq<char>, suffix: Seq<char>) -> bool {
    suffix.len() <= s.len() && s.subrange(s.len() - suffix.len(), s.len() as int) == suffix
}

/// A backup name names a file of the backup folder and nothing else: no
/// separator, no `..`, and the `.sqlite` extension.
pub open spec fn backup_name_ok(name: Seq<char>) -> bool {
    !name.contains('/') && !name.contains('\\') && !contains_seq(name, ".."@) && ends_with_seq(name, ".sqlite"@)
}

/// Checks the name of a backup to restore.
pub fn valid_backup_name(name: &str) -> (r: bool)
    ensures
        r == backup_name_ok(name@),
{
    let v = chars_of(name);
    let n = v.len();
    proof {
        assert(v@.subrange(0, n as int) =~= v@);
    }
    if has_char_in(&v, 0, n, '/') || has_char_in(&v, 0, n, '\\') || contains_in(&v, 0, n, "..") {
        return false;
    }
    let suffix = chars_of(".sqlite");
    if suffix.len() > n {
        return false;
    }
    let ok = crate::text::range_equals(&v, n - suffix.len(), n, ".sqlite");
    ok
}

/// Why a bulk import was refused. Rows count from one.
#[derive(Debug, Clone, Copy, PartialEq, Eq, Structural)]
pub enum ImportError {
    /// IMPORT-001
    UnsupportedEntity,
    /// IMPORT-002: the rows are not a JSON array.
    BadRows,
    /// IMPORT-003
    NoRows,
    /// IMPORT-004
    TooManyRows,
    /// IMPORT-006
    MissingContactName(usize),
    /// IMPORT-007
    BadContactKind(usize),
    /// IMPORT-009
    MissingSkuOrName(usize),
    /// IMPORT-010
    NegativeAmount(usize),
}

/// The entities a bulk import may bring in.
pub fn check_import_entity(entity_type: &str) -> (r: Result<(), ImportError>)
    ensures
        r is Ok <==> (entity_type@ == "contacts"@ || entity_type@ == "products"@),
        r is Err ==> r == Err::<(), ImportError>(ImportError::UnsupportedEntity),
{
    if same_text(entity_type, "contacts") || same_text(entity_type, "products") {
        Ok(())
    } else {
        Err(ImportError::UnsupportedEntity)
    }
}

/// The permission an import needs: creating contacts for contacts, and
/// creating products for anything else.
pub fn import_permission(entity_type: &str) -> (r: &'static str)
    ensures
        entity_type@ == "contacts"@ ==> r@ == "contacts.create"@,
        entity_type@ != "contacts"@ ==> r@ == "products.create"@,
{
    if same_text(entity_type, "contacts") {
        "contacts.create"
    } else {
        "products.create"
    }
}

/// An import holds at least one and at most 10000 rows.
pub fn check_import_size(rows: usize) -> (r: Result<(), ImportError>)
    ensures
        rows == 0 ==> r == Err::<(), ImportError>(ImportError::NoRows),
        rows > 10_000 ==> r == Err::<(), ImportError>(ImportError::TooManyRows),
        1 <= rows <= 10_000 ==> r is Ok,
{
    if rows == 0 {
        Err(ImportError::NoRows)
    } else if rows > 10_000 {
        Err(ImportError::TooManyRows)
    } else {
        Ok(())
    }
}

/// A contact row of an import; a field is `None` where it is missing or is
/// not of the expected JSON type.
#[derive(Debug)]
pub struct ImportContactRow {
    pub name: Option<String>,
    pub kind: Option<String>,
    pub mobile: Option<String>,
    pub is_customer: Option<bool>,
    pub is_supplier: Option<bool>,
}

/// What a checked contact row stores.
#[derive(Debug)]
pub struct ImportedContact {
    pub name: String,
    pub kind: String,
    pub mobile: Option<String>,
    pub is_customer: bool,
    pub is_supplier: bool,
}

/// Checks contact row `index` (from zero): a non-blank name, and a kind of
/// `person` (the default) or `company`.
pub fn check_contact_row(row: &ImportContactRow, index: usize) -> (r: Result<ImportedContact, ImportError>)
    requires
        index < usize::MAX,
    ensures
        ({
            let name = match row.name {
                Some(n) => trim_seq(n@),
                None => Seq::<char>::empty(),
            };
            let kind = match row.kind {
                Some(k) => k@,
                None => "person"@,
            };
            if name.len() == 0 {
                r == Err::<ImportedContact, ImportError>(ImportError::MissingContactName((index + 1) as usize))
            } else if kind != "person"@ && kind != "company"@ {
                r == Err::<ImportedContact, ImportError>(ImportError::BadContactKind((index + 1) as usize))
            } else {
                r matches Ok(c) && c.name@ == name && c.kind@ == kind && c.mobile == row.mobile
                    && c.is_customer == (row.is_customer == Some(true)) && c.is_supplier == (row.is_supplier == Some(true))
            }
        }),
{
    let name: &str = match &row.name {
        Some(n) => trim(n.as_str()),
        None => "",
    };
    proof {
        reveal_strlit("");
    }
    if name.unicode_len() == 0 {
        return Err(ImportError::MissingContactName(index + 1));
    }
    let kind: &str = match &row.kind {
        Some(k) => k.as_str(),
        None => "person",
    };
    if !same_text(kind, "person") && !same_text(kind, "company") {
        return Err(ImportError::BadContactKind(index + 1));
    }
    let mobile = match &row.mobile {
        Some(m) => Some(m.clone()),
        None => None,
    };
    Ok(ImportedContact {
        name: String::from_str(name),
        kind: String::from_str(kind),
        mobile,
        is_customer: row.is_customer == Some(true),
        is_supplier: row.is_supplier == Some(true),
    })
}

/// A product row of an import; a field is `None` where it is missing or is
/// not of the expected JSON type. Whether the minimum stock, a decimal, is
/// negative comes with the row.
#[derive(Debug)]
pub struct ImportProductRow {
    pub sku: Option<String>,
    pub name: Option<String>,
    pub unit: Option<String>,
    pub sale_price: Option<i64>,
    pub purchase_price: Option<i64>,
    pub min_stock_negative: bool,
    pub barcode: Option<String>,
}

/// What a checked product row stores (the minimum stock is kept aside).
#[derive(Debug)]
pub struct ImportedProduct {
    pub sku: String,
    pub name: String,
    pub unit: String,
    pub sale_price: i64,
    pub purchase_price: i64,
    pub barcode: Option<String>,
}

/// Checks product row `index` (from zero): a non-blank SKU and name, and
/// prices and minimum stock not below zero. A missing unit is «عدد».
pub fn check_product_row(row: &ImportProductRow, index: usize) -> (r: Result<ImportedProduct, ImportError>)
    requires
        index < usize::MAX,
    ensures
        ({
            let sku = match row.sku {
                Some(n) => trim_seq(n@),
                None => Seq::<char>::empty(),
            };
            let name = match row.name {
                Some(n) => trim_seq(n@),
                None => Seq::<char>::empty(),
            };
            let sale: i64 = match row.sale_price {
                Some(p) => p,
                None => 0,
            };
            let purchase: i64 = match row.purchase_price {
                Some(p) => p,
                None => 0,
            };
            if sku.len() == 0 || name.len() == 0 {
                r == Err::<ImportedProduct, ImportError>(ImportError::MissingSkuOrName((index + 1) as usize))
            } else if sale < 0 || purchase < 0 || row.min_stock_negative {
                r == Err::<ImportedProduct, ImportError>(ImportError::NegativeAmount((index + 1) as usize))
            } else {
                r matches Ok(p) && p.sku@ == sku && p.name@ == name && p.unit@ == (match row.unit {
                    Some(u) => u@,
                    None => "عدد"@,
                }) && p.sale_price == sale && p.purchase_price == purchase && p.barcode == row.barcode
            }
        }),
{
    proof {
        reveal_strlit("");
    }
    let sku: &str = match &row.sku {
        Some(n) => trim(n.as_str()),
        None => "",
    };
    let name: &str = match &row.name {
        Some(n) => trim(n.as_str()),
        None => "",
    };
    if sku.unicode_len() == 0 || name.unicode_len() == 0 {
        return Err(ImportError::MissingSkuOrName(index + 1));
    }
    let sale = match row.sale_price {
        Some(p) => p,
        None => 0,
    };
    let purchase = match row.purchase_price {
        Some(p) => p,
        None => 0,
    };
    if sale < 0 || purchase < 0 || row.min_stock_negative {
        return Err(ImportError::NegativeAmount(index + 1));
    }
    let unit = match &row.unit {
        Some(u) => u.clone(),
        None => String::from_str("عدد"),
    };
    let barcode = match &row.barcode {
        Some(b) => Some(b.clone()),
        None => None,
    };
    Ok(ImportedProduct { sku: String::from_str(sku), name: String::from_str(name), unit, sale_price: sale, purchase_price: purchase, barcode })
}

/// A checked import row by its texts: a contact (name, kind, mobile,
/// customer, supplier) or a product (SKU, name, unit, sale and purchase
/// price, barcode, and the printed minimum stock where it is a number).
pub enum ImportedView {
    Contact(Seq<char>, Seq<char>, Option<Seq<char>>, bool, bool),
    Product(Seq<char>, Seq<char>, Seq<char>, i64, i64, Option<Seq<char>>, Option<Seq<char>>),
}

/// A checked import row; a product keeps aside the printed number of its
/// minimum stock, a decimal the host stores as it reads it.
#[derive(Debug)]
pub enum ImportedRow {
    Contact(ImportedContact),
    Product(ImportedProduct, Option<String>),
}

/// An imported row by its texts.
pub open spec fn imported_view(r: ImportedRow) -> ImportedView {
    match r {
        ImportedRow::Contact(c) => ImportedView::Contact(
            c.name@,
            c.kind@,
            opt_chars(c.mobile),
            c.is_customer,
            c.is_supplier,
        ),
        ImportedRow::Product(p, min) => ImportedView::Product(
            p.sku@,
            p.name@,
            p.unit@,
            p.sale_price,
            p.purchase_price,
            opt_chars(p.barcode),
            opt_chars(min),
        ),
    }
}

/// The check of contact row `index` (from zero) read from JSON fields: a
/// non-blank name, a kind of `person` (the default) or `company`.
pub open spec fn contact_row_check(fs: Seq<(Seq<char>, JsonFieldView)>, index: int) -> Result<ImportedView, ImportError> {
    let name = match text_at(fs, "name"@) {
        Some(n) => trim_seq(n),
        None => Seq::<char>::empty(),
    };
    let kind = match text_at(fs, "kind"@) {
        Some(k) => k,
        None => "person"@,
    };
    if name.len() == 0 {
        Err(ImportError::MissingContactName((index + 1) as usize))
    } else if kind != "person"@ && kind != "company"@ {
        Err(ImportError::BadContactKind((index + 1) as usize))
    } else {
        Ok(
            ImportedView::Contact(
                name,
                kind,
                text_at(fs, "mobile"@),
                flag_at(fs, "is_customer"@) == Some(true),
                flag_at(fs, "is_supplier"@) == Some(true),
            ),
        )
    }
}

/// The check of product row `index` (from zero) read from JSON fields: a
/// non-blank SKU and name, whole prices (zero where missing) and a minimum
/// stock not below zero; a missing unit is «عدد».
pub open spec fn product_row_check(fs: Seq<(Seq<char>, JsonFieldView)>, index: int) -> Result<ImportedView, ImportError> {
    let sku = match text_at(fs, "sku"@) {
        Some(n) => trim_seq(n),
        None => Seq::<char>::empty(),
    };
    let name = match text_at(fs, "name"@) {
        Some(n) => trim_seq(n),
        None => Seq::<char>::empty(),
    };
    let sale: i64 = match int_at(fs, "sale_price"@) {
        Some(p) => p,
        None => 0,
    };
    let purchase: i64 = match int_at(fs, "purchase_price"@) {
        Some(p) => p,
        None => 0,
    };
    let min_negative = match number_at(fs, "min_stock"@) {
        Some(t) => number_negative(t),
        None => false,
    };
    if sku.len() == 0 || name.len() == 0 {
        Err(ImportError::MissingSkuOrName((index + 1) as usize))
    } else if sale < 0 || purchase < 0 || min_negative {
        Err(ImportError::NegativeAmount((index + 1) as usize))
    } else {
        Ok(
            ImportedView::Product(
                sku,
                name,
                match text_at(fs, "unit"@) {
                    Some(u) => u,
                    None => "عدد"@,
                },
                sale,
                purchase,
                text_at(fs, "barcode"@),
                number_at(fs, "min_stock"@),
            ),
        )
    }
}

/// The check of row `index` of a contacts or a products import.
pub open spec fn row_check(contacts: bool, fs: Seq<(Seq<char>, JsonFieldView)>, index: int) -> Result<ImportedView, ImportError> {
    if contacts {
        contact_row_check(fs, index)
    } else {
        product_row_check(fs, index)
    }
}

/// A checked row, or why it was refused, by its texts.
pub open spec fn row_result_view(r: Result<ImportedRow, ImportError>) -> Result<ImportedView, ImportError> {
    match r {
        Ok(row) => Ok(imported_view(row)),
        Err(e) => Err(e),
    }
}

/// The outcome of an import of `entity` from the text `text`: the entity is
/// checked, then that the text is a JSON array, then the number of rows;
/// then each row is checked on its own, in order.
pub open spec fn import_check(entity: Seq<char>, text: Seq<char>) -> Result<Seq<Result<ImportedView, ImportError>>, ImportError> {
    if !(entity == "contacts"@ || entity == "products"@) {
        Err(ImportError::UnsupportedEntity)
    } else {
        match json_object_rows(text) {
            None => Err(ImportError::BadRows),
            Some(rows) => if rows.len() == 0 {
                Err(ImportError::NoRows)
            } else if rows.len() > 10_000 {
                Err(ImportError::TooManyRows)
            } else {
                Ok(Seq::new(rows.len(), |i: int| row_check(entity == "contacts"@, rows[i], i)))
            },
        }
    }
}

/// Reads the rows of an import given as JSON text and checks each of them;
/// the host stores the rows in order and stops at the first refused one.
pub fn import_rows(entity_type: &str, rows_json: &str) -> (r: Result<Vec<Result<ImportedRow, ImportError>>, ImportError>)
    ensures
        match import_check(entity_type@, rows_json@) {
            Err(e) => r == Err::<Vec<Result<ImportedRow, ImportError>>, ImportError>(e),
            Ok(vs) => r matches Ok(out) && out@.len() == vs.len() && forall|i: int|
                0 <= i < vs.len() ==> #[trigger] row_result_view(out@[i]) == vs[i],
        },
{
    if let Err(e) = check_import_entity(entity_type) {
        return Err(e);
    }
    let contacts = same_text(entity_type, "contacts");
    let rows = match parse_json_rows(rows_json) {
        Some(rows) => rows,
        None => {
            return Err(ImportError::BadRows);
        },
    };
    let ghost views = rows@.map_values(|row: Vec<(String, JsonField)>| fields_view(row@));
    if let Err(e) = check_import_size(rows.len()) {
        return Err(e);
    }
    let mut out: Vec<Result<ImportedRow, ImportError>> = Vec::new();
    let mut i: usize = 0;
    while i < rows.len()
        invariant
            0 <= i <= rows@.len(),
            rows@.len() <= 10_000,
            views == rows@.map_values(|row: Vec<(String, JsonField)>| fields_view(row@)),
            json_object_rows(rows_json@) == Some(views),
            entity_type@ == "contacts"@ || entity_type@ == "products"@,
            contacts == (entity_type@ == "contacts"@),
            out@.len() == i,
            forall|j: int| 0 <= j < i ==> #[trigger] row_result_view(out@[j]) == row_check(contacts, views[j], j),
        decreases rows@.len() - i,
    {
        let fs = &rows[i];
        assert(views[i as int] == fields_view(fs@));
        if contacts {
            let row = ImportContactRow {
                name: text_field(fs, "name"),
                kind: text_field(fs, "kind"),
                mobile: text_field(fs, "mobile"),
                is_customer: flag_field(fs, "is_customer"),
                is_supplier: flag_field(fs, "is_supplier"),
            };
            match check_contact_row(&row, i) {
                Ok(c) => out.push(Ok(ImportedRow::Contact(c))),
                Err(e) => out.push(Err(e)),
            }
        } else {
            let min = number_field(fs, "min_stock");
            let min_negative = match &min {
                Some(t) => is_negative_number(t.as_str()),
                None => false,
            };
            let row = ImportProductRow {
                sku: text_field(fs, "sku"),
                name: text_field(fs, "name"),
                unit: text_field(fs, "unit"),
                sale_price: int_field(fs, "sale_price"),
                purchase_price: int_field(fs, "purchase_price"),
                min_stock_negative: min_negative,
                barcode: text_field(fs, "barcode"),
            };
            match check_product_row(&row, i) {
                Ok(p) => out.push(Ok(ImportedRow::Product(p, min))),
                Err(e) => out.push(Err(e)),
            }
        }
        i = i + 1;
    }
    Ok(out)
}

/// The fields of a plugin manifest that registration reads; a field is
/// `None` where it is missing or not of the expected JSON type, and a
/// permission is `None` where it is not text.
#[derive(Debug)]
pub struct PluginManifest {
    pub id: Option<String>,
    pub name: Option<String>,
    pub version: Option<String>,
    pub description: Option<String>,
    pub entrypoint: Option<String>,
    pub permissions: Option<Vec<Option<String>>>,
}

/// The permissions a plugin may ask for.
pub open spec fn is_plugin_permission(p: Seq<char>) -> bool {
    p == "network"@ || p == "native.execute"@ || p == "database.read"@ || p == "database.write"@
        || p == "filesystem.read"@ || p == "filesystem.write"@ || p == "plugins.execute"@
}

/// An entry point is a bare file name: no separator, not `.` or `..`.
pub open spec fn entry_ok(e: Seq<char>) -> bool {
    !e.contains('/') && !e.contains('\\') && e != "."@ && e != ".."@
}

/// The first permission, from `i` on, that is not text or not supported.
pub open spec fn first_bad_permission(p: Seq<Option<Seq<char>>>, i: int) -> Option<PluginError>
    decreases p.len() - i,
{
    if i < 0 || i >= p.len() {
        None
    } else if p[i] is None {
        Some(PluginError::PermissionNotText(i as usize))
    } else if !is_plugin_permission(p[i]->0) {
        Some(PluginError::UnsupportedPermission(i as usize))
    } else {
        first_bad_permission(p, i + 1)
    }
}

/// What registration stores of a checked manifest.
#[derive(Debug)]
pub struct CheckedManifest {
    pub id: String,
    pub name: String,
    pub version: String,
    pub description: Option<String>,
    pub entrypoint: String,
    pub permissions: Vec<String>,
}

/// A checked manifest by its texts.
pub struct ManifestView {
    pub id: Seq<char>,
    pub name: Seq<char>,
    pub version: Seq<char>,
    pub description: Option<Seq<char>>,
    pub entrypoint: Seq<char>,
    pub permissions: Seq<Seq<char>>,
}

/// The outcome of checking a manifest's fields, each `None` where it is
/// missing or not of the expected type: an id that names a folder safely, a
/// name, a version, an entry point that is a bare file name (`worker` where
/// none is given), and permissions that are all supported texts (none
/// where no list is given).
pub open spec fn manifest_rule(
    id: Option<Seq<char>>,
    name: Option<Seq<char>>,
    version: Option<Seq<char>>,
    description: Option<Seq<char>>,
    entrypoint: Option<Seq<char>>,
    permissions: Option<Seq<Option<Seq<char>>>>,
) -> Result<ManifestView, PluginError> {
    let entry = match entrypoint {
        Some(e) => e,
        None => "worker"@,
    };
    let perms = match permissions {
        Some(p) => p,
        None => Seq::empty(),
    };
    if id is None {
        Err(PluginError::MissingId)
    } else if !plugin_id_ok(id->0) {
        Err(PluginError::BadId)
    } else if name is None {
        Err(PluginError::MissingName)
    } else if version is None {
        Err(PluginError::MissingVersion)
    } else if !entry_ok(entry) {
        Err(PluginError::BadEntrypoint)
    } else if first_bad_permission(perms, 0) is Some {
        Err(first_bad_permission(perms, 0)->0)
    } else {
        Ok(ManifestView {
            id: id->0,
            name: name->0,
            version: version->0,
            description,
            entrypoint: entry,
            permissions: perms.map_values(|o: Option<Seq<char>>| o->0),
        })
    }
}

/// The permissions of a manifest by their texts.
pub open spec fn permissions_view(p: Option<Vec<Option<String>>>) -> Option<Seq<Option<Seq<char>>>> {
    match p {
        Some(v) => Some(v@.map_values(|o: Option<String>| opt_chars(o))),
        None => None,
    }
}

/// The outcome of checking a manifest.
pub open spec fn manifest_check(m: PluginManifest) -> Result<ManifestView, PluginError> {
    manifest_rule(
        opt_chars(m.id),
        opt_chars(m.name),
        opt_chars(m.version),
        opt_chars(m.description),
        opt_chars(m.entrypoint),
        permissions_view(m.permissions),
    )
}

/// A checked manifest, or why it was refused, by its texts.
pub open spec fn manifest_result_view(r: Result<CheckedManifest, PluginError>) -> Result<ManifestView, PluginError> {
    match r {
        Ok(c) => Ok(ManifestView {
            id: c.id@,
            name: c.name@,
            version: c.version@,
            description: opt_chars(c.description),
            entrypoint: c.entrypoint@,
            permissions: c.permissions@.map_values(|s: String| s@),
        }),
        Err(e) => Err(e),
    }
}

/// The outcome of registering the manifest `text`: refused where it is not
/// JSON; else the check of its fields `id`, `name`, `version`,
/// `description`, `entrypoint` (texts) and `permissions` (a list), where a
/// manifest that is not an object has none of them.
pub open spec fn manifest_from_json(text: Seq<char>) -> Result<ManifestView, PluginError> {
    match json_object(text) {
        None => Err(PluginError::BadManifest),
        Some(o) => {
            let fs = match o {
                Some(f) => f,
                None => Seq::empty(),
            };
            manifest_rule(
                text_at(fs, "id"@),
                text_at(fs, "name"@),
                text_at(fs, "version"@),
                text_at(fs, "description"@),
                text_at(fs, "entrypoint"@),
                list_at(fs, "permissions"@),
            )
        },
    }
}

fn entry_valid(e: &str) -> (r: bool)
    ensures
        r == entry_ok(e@),
{
    let v = chars_of(e);
    let n = v.len();
    proof {
        assert(v@.subrange(0, n as int) =~= v@);
    }
    !has_char_in(&v, 0, n, '/') && !has_char_in(&v, 0, n, '\\') && !same_text(e, ".") && !same_text(e, "..")
}

fn supported_permission(p: &str) -> (r: bool)
    ensures
        r == is_plugin_permission(p@),
{
    same_text(p, "network") || same_text(p, "native.execute") || same_text(p, "database.read") || same_text(
        p,
        "database.write",
    ) || same_text(p, "filesystem.read") || same_text(p, "filesystem.write") || same_text(p, "plugins.execute")
}

/// Checks a plugin manifest before the plugin is installed.
pub fn check_manifest(m: &PluginManifest) -> (r: Result<CheckedManifest, PluginError>)
    ensures
        manifest_result_view(r) == manifest_check(*m),
{
    let id = match &m.id {
        Some(i) => i,
        None => {
            return Err(PluginError::MissingId);
        },
    };
    validate_plugin_id(id.as_str())?;
    let name = match &m.name {
        Some(n) => n,
        None => {
            return Err(PluginError::MissingName);
        },
    };
    let version = match &m.version {
        Some(v) => v,
        None => {
            return Err(PluginError::MissingVersion);
        },
    };
    let entry: String = match &m.entrypoint {
        Some(e) => e.clone(),
        None => String::from_str("worker"),
    };
    if !entry_valid(entry.as_str()) {
        return Err(PluginError::BadEntrypoint);
    }
    let ghost pv = match permissions_view(m.permissions) {
        Some(p) => p,
        None => Seq::<Option<Seq<char>>>::empty(),
    };
    let mut perms: Vec<String> = Vec::new();
    match &m.permissions {
        Some(p) => {
            let mut i: usize = 0;
            while i < p.len()
                invariant
                    0 <= i <= p@.len(),
                    m.permissions == Some(*p),
                    m.id is Some && plugin_id_ok(m.id->0@),
                    m.name is Some,
                    m.version is Some,
                    entry_ok(
                        match m.entrypoint {
                            Some(e) => e@,
                            None => "worker"@,
                        },
                    ),
                    pv == p@.map_values(|o: Option<String>| opt_chars(o)),
                    first_bad_permission(pv, 0) == first_bad_permission(pv, i as int),
                    perms@.len() == i,
                    forall|j: int| 0 <= j < i ==> (#[trigger] pv[j]) == Some(perms@[j]@),
                decreases p@.len() - i,
            {
                proof {
                    assert(pv[i as int] == opt_chars(p@[i as int]));
                }
                match &p[i] {
                    None => {
                        return Err(PluginError::PermissionNotText(i));
                    },
                    Some(s) => {
                        if !supported_permission(s.as_str()) {
                            return Err(PluginError::UnsupportedPermission(i));
                        }
                        perms.push(s.clone());
                    },
                }
                i = i + 1;
            }
        },
        None => {},
    }
    let description: Option<String> = match &m.description {
        Some(d) => Some(d.clone()),
        None => None,
    };
    let c = CheckedManifest {
        id: id.clone(),
        name: name.clone(),
        version: version.clone(),
        description,
        entrypoint: entry,
        permissions: perms,
    };
    proof {
        assert(c.permissions@.map_values(|s: String| s@) =~= pv.map_values(|o: Option<Seq<char>>| o->0));
    }
    Ok(c)
}

/// A manifest list field as the checks read it.
fn list_of(l: &Vec<Option<String>>) -> (r: Vec<Option<String>>)
    ensures
        r@.map_values(|o: Option<String>| opt_chars(o)) == l@.map_values(|o: Option<String>| opt_chars(o)),
{
    let mut out: Vec<Option<String>> = Vec::new();
    let mut i: usize = 0;
    while i < l.len()
        invariant
            0 <= i <= l@.len(),
            out@.len() == i,
            forall|j: int| 0 <= j < i ==> opt_chars(#[trigger] out@[j]) == opt_chars(l@[j]),
        decreases l@.len() - i,
    {
        let e: Option<String> = match &l[i] {
            Some(t) => Some(t.clone()),
            None => None,
        };
        out.push(e);
        i = i + 1;
    }
    proof {
        assert(out@.map_values(|o: Option<String>| opt_chars(o)) =~= l@.map_values(|o: Option<String>| opt_chars(o)));
    }
    out
}

/// Reads and checks a plugin manifest given as JSON text.
pub fn register_manifest(manifest_json: &str) -> (r: Result<CheckedManifest, PluginError>)
    ensures
        manifest_result_view(r) == manifest_from_json(manifest_json@),
{
    let fs: Vec<(String, JsonField)> = match parse_json_object(manifest_json) {
        None => {
            return Err(PluginError::BadManifest);
        },
        Some(None) => Vec::new(),
        Some(Some(fs)) => fs,
    };
    proof {
        assert(fields_view(fs@) == match json_object(manifest_json@)->0 {
            Some(f) => f,
            None => Seq::<(Seq<char>, JsonFieldView)>::empty(),
        }) by {
            if fs@.len() == 0 {
                assert(fields_view(fs@) =~= Seq::<(Seq<char>, JsonFieldView)>::empty());
            }
        }
    }
    let permissions: Option<Vec<Option<String>>> = match find_field(&fs, "permissions") {
        Some(JsonField::List(l)) => Some(list_of(l)),
        _ => None,
    };
    let m = PluginManifest {
        id: text_field(&fs, "id"),
        name: text_field(&fs, "name"),
        version: text_field(&fs, "version"),
        description: text_field(&fs, "description"),
        entrypoint: text_field(&fs, "entrypoint"),
        permissions,
    };
    check_manifest(&m)
}

/// The permission at `index` of the manifest `text`, where it is text.
pub open spec fn permission_at(text: Seq<char>, index: int) -> Option<Seq<char>> {
    match json_object(text) {
        Some(Some(fs)) => match list_at(fs, "permissions"@) {
            Some(l) => if 0 <= index < l.len() {
                l[index]
            } else {
                None
            },
            None => None,
        },
        _ => None,
    }
}

/// The permission at `index` of a manifest given as JSON text, where it is
/// text; it names the permission a refusal speaks of.
pub fn manifest_permission_at(manifest_json: &str, index: usize) -> (r: Option<String>)
    ensures
        opt_chars(r) == permission_at(manifest_json@, index as int),
{
    let fs = match parse_json_object(manifest_json) {
        Some(Some(fs)) => fs,
        _ => {
            return None;
        },
    };
    match find_field(&fs, "permissions") {
        Some(JsonField::List(l)) => {
            if index < l.len() {
                match &l[index] {
                    Some(t) => Some(t.clone()),
                    None => None,
                }
            } else {
                None
            }
        },
        _ => None,
    }
}

} // verus!
