//! Verified core of the desktop accounting host: validation rules, status
//! machines, journal construction and the computations behind the forms.
use vstd::prelude::*;

pub mod admin;
pub mod aging;
pub mod cheques;
pub mod coding;
pub mod contacts;
pub mod integrations;
pub mod invoices;
pub mod journal;
pub mod json;
pub mod parties;
pub mod production;
pub mod products;
pub mod quotes;
pub mod return_docs;
pub mod security;
pub mod settings;
pub mod treasury;
pub mod treasury_docs;
pub mod text;

verus! {

} // verus!
