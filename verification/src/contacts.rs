//! The quick contact form and the bulk change of sale prices: the checks
//! made before anything is read from or written to the database.
use vstd::prelude::*;
use crate::text::{blank, is_blank, same_text};

verus! {

/// Why the quick contact form was refused.
#[derive(Debug, Clone, Copy, PartialEq, Eq, Structural)]
pub enum ContactError {
    /// CONTACT-001: the name is blank.
    MissingName,
    /// CONTACT-002: the kind is neither `person` nor `company`.
    BadKind,
}

/// Checks the quick contact form: a name that is not blank, and a kind
/// that is `person` or `company`.
pub fn check_contact(name: &str, kind: &str) -> (r: Result<(), ContactError>)
    ensures
        r == (if is_blank(name@) {
            Err(ContactError::MissingName)
        } else if kind@ == "person"@ || kind@ == "company"@ {
            Ok(())
        } else {
            Err(ContactError::BadKind)
        }),
{
    if blank(name) {
        return Err(ContactError::MissingName);
    }
    if !same_text(kind, "person") && !same_text(kind, "company") {
        return Err(ContactError::BadKind);
    }
    Ok(())
}

/// How a bulk change moves the sale price.
#[derive(Debug, Clone, Copy, PartialEq, Eq, Structural)]
pub enum BulkPriceMode {
    /// By a percentage of the current price.
    Percent,
    /// By an amount added to the current price.
    Amount,
    /// To a given price.
    Fixed,
}

/// Why a bulk price change was refused.
#[derive(Debug, Clone, Copy, PartialEq, Eq, Structural)]
pub enum BulkPriceError {
    /// BLK-003: no product was chosen.
    NoProducts,
    /// BLK-005: the mode is not one of `percent`, `amount` or `set`.
    BadMode,
}

/// Checks a bulk price change request: at least one product, and a mode
/// that names one of the three ways to change a price.
pub fn check_bulk_price_request(product_count: usize, mode: &str) -> (r: Result<BulkPriceMode, BulkPriceError>)
    ensures
        r == (if product_count == 0 {
            Err(BulkPriceError::NoProducts)
        } else if mode@ == "percent"@ {
            Ok(BulkPriceMode::Percent)
        } else if mode@ == "amount"@ {
            Ok(BulkPriceMode::Amount)
        } else if mode@ == "set"@ {
            Ok(BulkPriceMode::Fixed)
        } else {
            Err(BulkPriceError::BadMode)
        }),
{
    if product_count == 0 {
        return Err(BulkPriceError::NoProducts);
    }
    if same_text(mode, "percent") {
        Ok(BulkPriceMode::Percent)
    } else if same_text(mode, "amount") {
        Ok(BulkPriceMode::Amount)
    } else if same_text(mode, "set") {
        Ok(BulkPriceMode::Fixed)
    } else {
        Err(BulkPriceError::BadMode)
    }
}

} // verus!
