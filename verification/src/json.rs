//! JSON documents as the host reads them: an object's fields, or an array
//! of objects, each field kept as text, a yes/no, a number's text, a list of
//! texts, or something else. Parsing is serde_json's; reading the fields is
//! the library's.
use vstd::prelude::*;
use serde_json::Value;
use crate::text::{parse_i64, same_text};

verus! {

/// A field of a JSON object, as far as the host reads it.
#[derive(Debug)]
pub enum JsonField {
    /// A JSON string.
    Text(String),
    /// A JSON `true` or `false`.
    Flag(bool),
    /// A JSON number, as serde_json prints it.
    Number(String),
    /// A JSON array, each element kept where it is a string.
    List(Vec<Option<String>>),
    /// Anything else.
    Other,
}

/// A field by its texts.
pub enum JsonFieldView {
    Text(Seq<char>),
    Flag(bool),
    Number(Seq<char>),
    List(Seq<Option<Seq<char>>>),
    Other,
}

/// An optional text, by its characters.
pub open spec fn opt_chars(o: Option<String>) -> Option<Seq<char>> {
    match o {
        Some(s) => Some(s@),
        None => None,
    }
}

/// A field by its texts.
pub open spec fn field_view(f: JsonField) -> JsonFieldView {
    match f {
        JsonField::Text(s) => JsonFieldView::Text(s@),
        JsonField::Flag(b) => JsonFieldView::Flag(b),
        JsonField::Number(s) => JsonFieldView::Number(s@),
        JsonField::List(l) => JsonFieldView::List(l@.map_values(|e: Option<String>| opt_chars(e))),
        JsonField::Other => JsonFieldView::Other,
    }
}

/// An object's fields by their texts, in order.
pub open spec fn fields_view(fs: Seq<(String, JsonField)>) -> Seq<(Seq<char>, JsonFieldView)> {
    fs.map_values(|p: (String, JsonField)| (p.0@, field_view(p.1)))
}

/// The fields of `text` read as a JSON object: `None` where it is not JSON,
/// `Some(None)` where it is JSON but not an object; each field is text or a
/// list of texts, anything else is `Other`.
pub uninterp spec fn json_object(text: Seq<char>) -> Option<Option<Seq<(Seq<char>, JsonFieldView)>>>;

/// The rows of `text` read as a JSON array: `None` where it is not a JSON
/// array; a row that is not an object has no fields; each field is text, a
/// yes/no or a number's text, anything else is `Other`.
pub uninterp spec fn json_object_rows(text: Seq<char>) -> Option<Seq<Seq<(Seq<char>, JsonFieldView)>>>;

/// Parses `text` with `serde_json::from_str::<Value>` and, for an object,
/// keeps each field's name and its string or array of strings. The contract
/// claims only that the outcome depends on the text alone.
#[verifier::external_body]
pub(crate) fn parse_json_object(text: &str) -> (r: Option<Option<Vec<(String, JsonField)>>>)
    ensures
        match r {
            None => json_object(text@) is None,
            Some(None) => json_object(text@) == Some(None::<Seq<(Seq<char>, JsonFieldView)>>),
            Some(Some(fs)) => json_object(text@) == Some(Some(fields_view(fs@))),
        },
{
    match serde_json::from_str::<Value>(text) {
        Ok(Value::Object(m)) => Some(Some(m.into_iter().map(|(k, v)| (k, match v {
            Value::String(s) => JsonField::Text(s),
            Value::Array(a) => JsonField::List(a.into_iter().map(|e| match e {
                Value::String(s) => Some(s),
                _ => None,
            }).collect()),
            _ => JsonField::Other,
        })).collect())),
        Ok(_) => Some(None),
        Err(_) => None,
    }
}

/// Parses `text` with `serde_json::from_str::<Vec<Value>>` and keeps, for
/// each element that is an object, each field's name and its string, bool or
/// number (printed). The contract claims only that the outcome depends on
/// the text alone.
#[verifier::external_body]
pub(crate) fn parse_json_rows(text: &str) -> (r: Option<Vec<Vec<(String, JsonField)>>>)
    ensures
        match r {
            None => json_object_rows(text@) is None,
            Some(rows) => json_object_rows(text@) == Some(rows@.map_values(|row: Vec<(String, JsonField)>| fields_view(row@))),
        },
{
    serde_json::from_str::<Vec<Value>>(text).ok().map(|rows| rows.into_iter().map(|row| match row {
        Value::Object(m) => m.into_iter().map(|(k, v)| (k, match v {
            Value::String(s) => JsonField::Text(s),
            Value::Bool(b) => JsonField::Flag(b),
            Value::Number(n) => JsonField::Number(n.to_string()),
            _ => JsonField::Other,
        })).collect(),
        _ => Vec::new(),
    }).collect())
}

/// The first field named `key`.
pub open spec fn lookup(fs: Seq<(Seq<char>, JsonFieldView)>, key: Seq<char>) -> Option<JsonFieldView>
    decreases fs.len(),
{
    if fs.len() == 0 {
        None
    } else if fs[0].0 == key {
        Some(fs[0].1)
    } else {
        lookup(fs.drop_first(), key)
    }
}

/// The field `key` where it is text.
pub open spec fn text_at(fs: Seq<(Seq<char>, JsonFieldView)>, key: Seq<char>) -> Option<Seq<char>> {
    match lookup(fs, key) {
        Some(JsonFieldView::Text(t)) => Some(t),
        _ => None,
    }
}

/// The field `key` where it is a yes/no.
pub open spec fn flag_at(fs: Seq<(Seq<char>, JsonFieldView)>, key: Seq<char>) -> Option<bool> {
    match lookup(fs, key) {
        Some(JsonFieldView::Flag(b)) => Some(b),
        _ => None,
    }
}

/// The field `key` where it is a number that is a whole 64-bit integer.
pub open spec fn int_at(fs: Seq<(Seq<char>, JsonFieldView)>, key: Seq<char>) -> Option<i64> {
    match lookup(fs, key) {
        Some(JsonFieldView::Number(t)) => crate::text::parse_i64_spec(t),
        _ => None,
    }
}

/// The printed text of the field `key` where it is a number.
pub open spec fn number_at(fs: Seq<(Seq<char>, JsonFieldView)>, key: Seq<char>) -> Option<Seq<char>> {
    match lookup(fs, key) {
        Some(JsonFieldView::Number(t)) => Some(t),
        _ => None,
    }
}

/// The field `key` where it is a list.
pub open spec fn list_at(fs: Seq<(Seq<char>, JsonFieldView)>, key: Seq<char>) -> Option<Seq<Option<Seq<char>>>> {
    match lookup(fs, key) {
        Some(JsonFieldView::List(l)) => Some(l),
        _ => None,
    }
}

/// Some digit from `i` on, before any exponent, is not zero.
pub open spec fn nonzero_mantissa(t: Seq<char>, i: int) -> bool
    decreases t.len() - i,
{
    if i < 0 || i >= t.len() {
        false
    } else if t[i] == 'e' || t[i] == 'E' {
        false
    } else if '1' <= t[i] <= '9' {
        true
    } else {
        nonzero_mantissa(t, i + 1)
    }
}

/// A printed JSON number below zero: a minus sign and some digit of the
/// mantissa that is not zero.
pub open spec fn number_negative(t: Seq<char>) -> bool {
    t.len() > 0 && t[0] == '-' && nonzero_mantissa(t, 1)
}

/// The first field named `key`.
pub fn find_field<'a>(fs: &'a Vec<(String, JsonField)>, key: &str) -> (r: Option<&'a JsonField>)
    ensures
        match r {
            None => lookup(fields_view(fs@), key@) is None,
            Some(f) => lookup(fields_view(fs@), key@) == Some(field_view(*f)),
        },
{
    let ghost all = fields_view(fs@);
    proof {
        assert(all.skip(0) =~= all);
    }
    let mut i: usize = 0;
    while i < fs.len()
        invariant
            0 <= i <= fs@.len(),
            all == fields_view(fs@),
            lookup(all, key@) == lookup(all.skip(i as int), key@),
        decreases fs@.len() - i,
    {
        proof {
            assert(all.skip(i as int).drop_first() =~= all.skip(i as int + 1));
        }
        if same_text(fs[i].0.as_str(), key) {
            return Some(&fs[i].1);
        }
        i = i + 1;
    }
    proof {
        assert(all.skip(i as int).len() == 0);
    }
    None
}

/// The field `key` where it is text.
pub fn text_field(fs: &Vec<(String, JsonField)>, key: &str) -> (r: Option<String>)
    ensures
        opt_chars(r) == text_at(fields_view(fs@), key@),
{
    match find_field(fs, key) {
        Some(JsonField::Text(t)) => Some(t.clone()),
        _ => None,
    }
}

/// The field `key` where it is a yes/no.
pub fn flag_field(fs: &Vec<(String, JsonField)>, key: &str) -> (r: Option<bool>)
    ensures
        r == flag_at(fields_view(fs@), key@),
{
    match find_field(fs, key) {
        Some(JsonField::Flag(b)) => Some(*b),
        _ => None,
    }
}

/// The field `key` where it is a number that is a whole 64-bit integer.
pub fn int_field(fs: &Vec<(String, JsonField)>, key: &str) -> (r: Option<i64>)
    ensures
        r == int_at(fields_view(fs@), key@),
{
    match find_field(fs, key) {
        Some(JsonField::Number(t)) => parse_i64(t.as_str()),
        _ => None,
    }
}

/// The printed text of the field `key` where it is a number.
pub fn number_field(fs: &Vec<(String, JsonField)>, key: &str) -> (r: Option<String>)
    ensures
        opt_chars(r) == number_at(fields_view(fs@), key@),
{
    match find_field(fs, key) {
        Some(JsonField::Number(t)) => Some(t.clone()),
        _ => None,
    }
}

/// Whether a printed JSON number is below zero.
pub fn is_negative_number(t: &str) -> (r: bool)
    ensures
        r == number_negative(t@),
{
    let v = crate::text::chars_of(t);
    if v.len() == 0 || v[0] != '-' {
        return false;
    }
    let mut i: usize = 1;
    while i < v.len()
        invariant
            1 <= i <= v@.len(),
            v@ == t@,
            t@.len() > 0 && t@[0] == '-',
            nonzero_mantissa(t@, 1) == nonzero_mantissa(t@, i as int),
        decreases v@.len() - i,
    {
        let c = v[i];
        assert(t@[i as int] == c);
        if c == 'e' || c == 'E' {
            return false;
        }
        if c >= '1' && c <= '9' {
            return true;
        }
        i = i + 1;
    }
    false
}

} // verus!
