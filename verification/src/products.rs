//! The product form: the checks on a product's tabs, in the order the form
//! reports them, and the base sale price it stores.
use vstd::prelude::*;
use crate::text::{blank, is_blank, same_text, trim, trim_seq};

verus! {

broadcast use vstd::string::group_string_axioms;

/// A price level of a product; no price means the level is not defined.
#[derive(Debug, Clone)]
pub struct PriceLevelInput {
    pub level: String,
    pub price: Option<i64>,
}

/// A price level as the product page shows it.
#[derive(Debug)]
pub struct PriceLevelRow {
    pub level: String,
    pub label: String,
    pub price: Option<i64>,
}

/// A secondary unit as the checks read it: its name, whether its factor to
/// the main unit is one the unit rules accept, and whether it is the default
/// unit of sale.
#[derive(Debug, Clone)]
pub struct UnitCheck {
    pub unit_name: String,
    pub factor_accepted: bool,
    pub is_default_sale: bool,
}

/// A quantity discount step as the checks read it.
#[derive(Debug, Clone, Copy)]
pub struct TierCheck {
    pub min_quantity_positive: bool,
    pub discount_bp: i64,
}

/// The gold details of a jewellery item as the checks read them.
#[derive(Debug, Clone, Copy)]
pub struct GoldCheck {
    pub weight_positive: bool,
    pub carat: i64,
}

/// What the checks read of the product form. `kind_known` and `is_gold`
/// say whether the kind is one the catalogue knows and whether it is gold
/// jewellery; `tax_profile_ok` whether the tax rates pass the tax rules;
/// `price_levels_known[i]` whether price level `i` names a known level.
#[derive(Debug)]
pub struct ProductCheck {
    pub kind_known: bool,
    pub is_gold: bool,
    pub sku: String,
    pub name: String,
    pub unit: String,
    pub purchase_price: i64,
    pub tax_profile_ok: bool,
    pub prices: Vec<PriceLevelInput>,
    pub price_levels_known: Vec<bool>,
    pub units: Vec<UnitCheck>,
    pub tiers: Vec<TierCheck>,
    pub gold: Option<GoldCheck>,
}

/// Why the product form was refused.
#[derive(Debug, Clone, Copy, PartialEq, Eq, Structural)]
pub enum ProductError {
    /// ITM-002
    BadKind,
    /// ITM-003
    MissingSku,
    /// ITM-004
    MissingName,
    /// ITM-005
    MissingUnit,
    /// ITM-006
    NegativePurchasePrice,
    /// ITM-007
    BadTaxProfile,
    /// ITM-008
    UnknownPriceLevel,
    /// ITM-009
    NegativeLevelPrice,
    /// ITM-010
    MissingUnitName,
    /// ITM-011
    UnitSameAsMain,
    /// ITM-012
    BadUnitFactor,
    /// ITM-013
    SeveralDefaultUnits,
    /// ITM-014
    BadTierQuantity,
    /// ITM-015
    BadTierDiscount,
    /// ITM-016
    MissingGold,
    /// ITM-017
    BadGoldWeight,
    /// ITM-018
    BadCarat,
}

/// The first price level, from `i` on, that is unknown or has a negative
/// price.
pub open spec fn first_price_error(p: Seq<PriceLevelInput>, known: Seq<bool>, i: int) -> Option<ProductError>
    decreases p.len() - i,
{
    if i < 0 || i >= p.len() {
        None
    } else if !known[i] {
        Some(ProductError::UnknownPriceLevel)
    } else if p[i].price matches Some(x) && x < 0 {
        Some(ProductError::NegativeLevelPrice)
    } else {
        first_price_error(p, known, i + 1)
    }
}

/// The first secondary unit, from `i` on, that breaks a rule: no name, the
/// main unit's name, or a factor the unit rules refuse.
pub open spec fn first_unit_error(u: Seq<UnitCheck>, main: Seq<char>, i: int) -> Option<ProductError>
    decreases u.len() - i,
{
    if i < 0 || i >= u.len() {
        None
    } else if is_blank(u[i].unit_name@) {
        Some(ProductError::MissingUnitName)
    } else if trim_seq(u[i].unit_name@) == trim_seq(main) {
        Some(ProductError::UnitSameAsMain)
    } else if !u[i].factor_accepted {
        Some(ProductError::BadUnitFactor)
    } else {
        first_unit_error(u, main, i + 1)
    }
}

/// How many of the first `n` secondary units are the default unit of sale.
pub open spec fn default_units(u: Seq<UnitCheck>, n: int) -> int
    decreases n,
{
    if n <= 0 {
        0
    } else {
        default_units(u, n - 1) + if u[n - 1].is_default_sale {
            1int
        } else {
            0
        }
    }
}

/// The first discount step, from `i` on, that breaks a rule.
pub open spec fn first_tier_error(t: Seq<TierCheck>, i: int) -> Option<ProductError>
    decreases t.len() - i,
{
    if i < 0 || i >= t.len() {
        None
    } else if !t[i].min_quantity_positive {
        Some(ProductError::BadTierQuantity)
    } else if !(0 <= t[i].discount_bp <= 10_000) {
        Some(ProductError::BadTierDiscount)
    } else {
        first_tier_error(t, i + 1)
    }
}

/// The outcome of checking the product form, in the form's order.
pub open spec fn product_check(p: ProductCheck) -> Result<(), ProductError> {
    if !p.kind_known {
        Err(ProductError::BadKind)
    } else if is_blank(p.sku@) {
        Err(ProductError::MissingSku)
    } else if is_blank(p.name@) {
        Err(ProductError::MissingName)
    } else if is_blank(p.unit@) {
        Err(ProductError::MissingUnit)
    } else if p.purchase_price < 0 {
        Err(ProductError::NegativePurchasePrice)
    } else if !p.tax_profile_ok {
        Err(ProductError::BadTaxProfile)
    } else if first_price_error(p.prices@, p.price_levels_known@, 0) is Some {
        Err(first_price_error(p.prices@, p.price_levels_known@, 0)->0)
    } else if first_unit_error(p.units@, p.unit@, 0) is Some {
        Err(first_unit_error(p.units@, p.unit@, 0)->0)
    } else if default_units(p.units@, p.units@.len() as int) > 1 {
        Err(ProductError::SeveralDefaultUnits)
    } else if first_tier_error(p.tiers@, 0) is Some {
        Err(first_tier_error(p.tiers@, 0)->0)
    } else if p.is_gold && p.gold is None {
        Err(ProductError::MissingGold)
    } else if p.is_gold && !p.gold->0.weight_positive {
        Err(ProductError::BadGoldWeight)
    } else if p.is_gold && !(1 <= p.gold->0.carat <= 24) {
        Err(ProductError::BadCarat)
    } else {
        Ok(())
    }
}

/// Checks the product form before anything is stored.
#[verifier::loop_isolation(false)]
pub fn validate_product(p: &ProductCheck) -> (r: Result<(), ProductError>)
    requires
        p.price_levels_known@.len() == p.prices@.len(),
    ensures
        r == product_check(*p),
{
    if !p.kind_known {
        return Err(ProductError::BadKind);
    }
    if blank(p.sku.as_str()) {
        return Err(ProductError::MissingSku);
    }
    if blank(p.name.as_str()) {
        return Err(ProductError::MissingName);
    }
    if blank(p.unit.as_str()) {
        return Err(ProductError::MissingUnit);
    }
    if p.purchase_price < 0 {
        return Err(ProductError::NegativePurchasePrice);
    }
    if !p.tax_profile_ok {
        return Err(ProductError::BadTaxProfile);
    }
    let mut i: usize = 0;
    while i < p.prices.len()
        invariant
            0 <= i <= p.prices@.len(),
            p.price_levels_known@.len() == p.prices@.len(),
            first_price_error(p.prices@, p.price_levels_known@, 0) == first_price_error(p.prices@, p.price_levels_known@, i as int),
        decreases p.prices@.len() - i,
    {
        if !p.price_levels_known[i] {
            return Err(ProductError::UnknownPriceLevel);
        }
        match p.prices[i].price {
            Some(x) => if x < 0 {
                return Err(ProductError::NegativeLevelPrice);
            },
            None => {},
        }
        i = i + 1;
    }
    let main = trim(p.unit.as_str());
    let mut defaults: usize = 0;
    let mut k: usize = 0;
    while k < p.units.len()
        invariant
            0 <= k <= p.units@.len(),
            main@ == trim_seq(p.unit@),
            first_unit_error(p.units@, p.unit@, 0) == first_unit_error(p.units@, p.unit@, k as int),
            defaults == default_units(p.units@, k as int),
            defaults <= k,
        decreases p.units@.len() - k,
    {
        let u = &p.units[k];
        if blank(u.unit_name.as_str()) {
            return Err(ProductError::MissingUnitName);
        }
        if same_text(trim(u.unit_name.as_str()), main) {
            return Err(ProductError::UnitSameAsMain);
        }
        if !u.factor_accepted {
            return Err(ProductError::BadUnitFactor);
        }
        if u.is_default_sale {
            defaults = defaults + 1;
        }
        k = k + 1;
    }
    if defaults > 1 {
        return Err(ProductError::SeveralDefaultUnits);
    }
    let mut j: usize = 0;
    while j < p.tiers.len()
        invariant
            0 <= j <= p.tiers@.len(),
            first_tier_error(p.tiers@, 0) == first_tier_error(p.tiers@, j as int),
        decreases p.tiers@.len() - j,
    {
        let t = p.tiers[j];
        if !t.min_quantity_positive {
            return Err(ProductError::BadTierQuantity);
        }
        if !(t.discount_bp >= 0 && t.discount_bp <= 10_000) {
            return Err(ProductError::BadTierDiscount);
        }
        j = j + 1;
    }
    if p.is_gold {
        match p.gold {
            None => {
                return Err(ProductError::MissingGold);
            },
            Some(g) => {
                if !g.weight_positive {
                    return Err(ProductError::BadGoldWeight);
                }
                if !(g.carat >= 1 && g.carat <= 24) {
                    return Err(ProductError::BadCarat);
                }
            },
        }
    }
    Ok(())
}

/// The first price level, from `i` on, named `level`.
pub open spec fn level_index(p: Seq<PriceLevelInput>, level: Seq<char>, i: int) -> Option<int>
    decreases p.len() - i,
{
    if i < 0 || i >= p.len() {
        None
    } else if p[i].level@ == level {
        Some(i)
    } else {
        level_index(p, level, i + 1)
    }
}

/// The base sale price of a product: the price of its first level named
/// `retail_level`, or zero where that level is missing or has no price.
pub fn retail_price(prices: &Vec<PriceLevelInput>, retail_level: &str) -> (r: i64)
    ensures
        r == (match level_index(prices@, retail_level@, 0) {
            Some(i) => match prices@[i].price {
                Some(x) => x,
                None => 0,
            },
            None => 0,
        }),
{
    let mut i: usize = 0;
    while i < prices.len()
        invariant
            0 <= i <= prices@.len(),
            level_index(prices@, retail_level@, 0) == level_index(prices@, retail_level@, i as int),
        decreases prices@.len() - i,
    {
        if same_text(prices[i].level.as_str(), retail_level) {
            return match prices[i].price {
                Some(x) => x,
                None => 0,
            };
        }
        i = i + 1;
    }
    0
}

/// The permission that saving a product needs: editing an existing one or
/// creating a new one.
pub fn product_permission(id: &Option<String>) -> (r: &'static str)
    ensures
        id is Some ==> r@ == "products.edit"@,
        id is None ==> r@ == "products.create"@,
{
    if id.is_some() {
        "products.edit"
    } else {
        "products.create"
    }
}

} // verus!
