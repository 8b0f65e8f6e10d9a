use desktop_host::products::{
    product_permission, retail_price, validate_product, GoldCheck, PriceLevelInput, ProductCheck,
    ProductError, TierCheck, UnitCheck,
};

fn level(name: &str, price: Option<i64>) -> PriceLevelInput {
    PriceLevelInput { level: name.into(), price }
}

fn unit(name: &str, accepted: bool, default_sale: bool) -> UnitCheck {
    UnitCheck { unit_name: name.into(), factor_accepted: accepted, is_default_sale: default_sale }
}

fn form() -> ProductCheck {
    ProductCheck {
        kind_known: true,
        is_gold: false,
        sku: "SKU-1".into(),
        name: "Tea".into(),
        unit: "box".into(),
        purchase_price: 100,
        tax_profile_ok: true,
        prices: vec![level("retail", Some(150)), level("wholesale", Some(120))],
        price_levels_known: vec![true, true],
        units: vec![unit("carton", true, true)],
        tiers: vec![TierCheck { min_quantity_positive: true, discount_bp: 500 }],
        gold: None,
    }
}

#[test]
fn complete_product_form_passes() {
    assert_eq!(validate_product(&form()), Ok(()));
}

#[test]
fn product_form_reports_first_problem_in_order() {
    let mut p = form();
    p.kind_known = false;
    p.sku = "  ".into();
    assert_eq!(validate_product(&p), Err(ProductError::BadKind));
    let mut p = form();
    p.sku = " \t".into();
    p.name = "".into();
    assert_eq!(validate_product(&p), Err(ProductError::MissingSku));
    let mut p = form();
    p.name = "".into();
    assert_eq!(validate_product(&p), Err(ProductError::MissingName));
    let mut p = form();
    p.unit = " ".into();
    assert_eq!(validate_product(&p), Err(ProductError::MissingUnit));
    let mut p = form();
    p.purchase_price = -1;
    assert_eq!(validate_product(&p), Err(ProductError::NegativePurchasePrice));
    let mut p = form();
    p.tax_profile_ok = false;
    assert_eq!(validate_product(&p), Err(ProductError::BadTaxProfile));
}

#[test]
fn product_price_level_errors() {
    let mut p = form();
    p.price_levels_known = vec![true, false];
    assert_eq!(validate_product(&p), Err(ProductError::UnknownPriceLevel));
    let mut p = form();
    p.prices = vec![level("retail", None), level("wholesale", Some(-5))];
    assert_eq!(validate_product(&p), Err(ProductError::NegativeLevelPrice));
}

#[test]
fn product_unit_errors() {
    let mut p = form();
    p.units = vec![unit("  ", true, false)];
    assert_eq!(validate_product(&p), Err(ProductError::MissingUnitName));
    let mut p = form();
    p.units = vec![unit(" box ", true, false)];
    assert_eq!(validate_product(&p), Err(ProductError::UnitSameAsMain));
    let mut p = form();
    p.units = vec![unit("carton", false, false)];
    assert_eq!(validate_product(&p), Err(ProductError::BadUnitFactor));
    let mut p = form();
    p.units = vec![unit("carton", true, true), unit("pallet", true, true)];
    assert_eq!(validate_product(&p), Err(ProductError::SeveralDefaultUnits));
}

#[test]
fn product_tier_and_gold_errors() {
    let mut p = form();
    p.tiers = vec![TierCheck { min_quantity_positive: false, discount_bp: 0 }];
    assert_eq!(validate_product(&p), Err(ProductError::BadTierQuantity));
    let mut p = form();
    p.tiers = vec![TierCheck { min_quantity_positive: true, discount_bp: 10_001 }];
    assert_eq!(validate_product(&p), Err(ProductError::BadTierDiscount));
    let mut p = form();
    p.tiers = vec![TierCheck { min_quantity_positive: true, discount_bp: 10_000 }];
    assert_eq!(validate_product(&p), Ok(()));
    let mut p = form();
    p.is_gold = true;
    assert_eq!(validate_product(&p), Err(ProductError::MissingGold));
    p.gold = Some(GoldCheck { weight_positive: false, carat: 18 });
    assert_eq!(validate_product(&p), Err(ProductError::BadGoldWeight));
    p.gold = Some(GoldCheck { weight_positive: true, carat: 25 });
    assert_eq!(validate_product(&p), Err(ProductError::BadCarat));
    p.gold = Some(GoldCheck { weight_positive: true, carat: 24 });
    assert_eq!(validate_product(&p), Ok(()));
}

#[test]
fn retail_price_takes_first_matching_level() {
    let prices = vec![level("wholesale", Some(120)), level("retail", Some(150)), level("retail", Some(99))];
    assert_eq!(retail_price(&prices, "retail"), 150);
    assert_eq!(retail_price(&prices, "vip"), 0);
    assert_eq!(retail_price(&vec![level("retail", None)], "retail"), 0);
}

#[test]
fn product_permission_depends_on_id() {
    assert_eq!(product_permission(&Some("p1".into())), "products.edit");
    assert_eq!(product_permission(&None), "products.create");
}
