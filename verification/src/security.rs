//! The check on identifiers that end up inside SQL text.
use vstd::prelude::*;
use vstd::string::StringSliceAdditionalSpecFns;

verus! {

/// A byte that may appear in an SQL identifier: ASCII letter, digit or `_`.
pub open spec fn is_identifier_byte(b: u8) -> bool {
    (0x30 <= b <= 0x39) || (0x41 <= b <= 0x5a) || (0x61 <= b <= 0x7a) || b == 0x5f
}

/// The rule for an SQL identifier: non-empty, at most 64 bytes, and made of
/// identifier bytes only.
pub open spec fn is_valid_identifier(s: &str) -> bool {
    &&& s@.len() > 0
    &&& s.spec_bytes().len() <= 64
    &&& forall|i: int| 0 <= i < s.spec_bytes().len() ==> is_identifier_byte(#[trigger] s.spec_bytes()[i])
}

fn identifier_byte(b: u8) -> (r: bool)
    ensures
        r == is_identifier_byte(b),
{
    (b >= 0x30 && b <= 0x39) || (b >= 0x41 && b <= 0x5a) || (b >= 0x61 && b <= 0x7a) || b == 0x5f
}

fn all_identifier_bytes(bytes: &[u8]) -> (r: bool)
    ensures
        r == (forall|j: int| 0 <= j < bytes@.len() ==> is_identifier_byte(#[trigger] bytes@[j])),
{
    let mut i: usize = 0;
    while i < bytes.len()
        invariant
            0 <= i <= bytes@.len(),
            forall|j: int| 0 <= j < i ==> is_identifier_byte(#[trigger] bytes@[j]),
        decreases bytes@.len() - i,
    {
        if !identifier_byte(bytes[i]) {
            return false;
        }
        i = i + 1;
    }
    true
}

/// Validate an SQL identifier before it is inserted into a SQL statement.
/// Dynamic identifiers must come from application-controlled allowlists.
pub fn validate_identifier(value: &str) -> (r: Result<&str, String>)
    ensures
        is_valid_identifier(value) ==> r == Ok::<&str, String>(value),
        !is_valid_identifier(value) ==> (r matches Err(e) && e@ == "SQL-001: invalid SQL identifier"@),
{
    let bytes = value.as_bytes();
    let valid = !value.is_empty() && bytes.len() <= 64 && all_identifier_bytes(bytes);
    if valid {
        Ok(value)
    } else {
        Err(String::from_str("SQL-001: invalid SQL identifier"))
    }
}

} // verus!
