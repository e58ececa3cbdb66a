//! The generic tree of a TOML or JSON document, as read by the `toml` and
//! `serde_json` crates, and lookups into it.

use vstd::prelude::*;
use crate::text::owned;

verus! {

/// A value of a parsed TOML or JSON document. Numbers, booleans and dates
/// keep only their kind: no field of a declaration takes one.
#[derive(Debug)]
pub enum DocValue {
    Str(String),
    Number,
    Bool,
    Datetime,
    /// JSON `null`.
    Null,
    Array(Vec<DocValue>),
    /// A table (TOML) or object (JSON), entries in the order the parser yields them.
    Table(Vec<DocEntry>),
}

/// A key of a table with its value.
#[derive(Debug)]
pub struct DocEntry {
    pub key: String,
    pub value: DocValue,
}

/// The document the `toml` crate reads from `text` (`toml::from_str::<toml::Value>`),
/// or the text of its error.
pub uninterp spec fn toml_document(text: Seq<char>) -> Result<DocValue, Seq<char>>;

/// The document `serde_json` reads from `text` (`serde_json::from_str::<serde_json::Value>`),
/// or the text of its error.
pub uninterp spec fn json_document(text: Seq<char>) -> Result<DocValue, Seq<char>>;

/// A value of the `toml` crate, carried opaquely.
#[verifier::external_type_specification]
#[verifier::external_body]
pub struct ExTomlValue(toml::Value);

/// A value of `serde_json`, carried opaquely.
#[verifier::external_type_specification]
#[verifier::external_body]
pub struct ExJsonValue(serde_json::Value);

/// Converts a value of the `toml` crate variant by variant.
#[verifier::external_body]
fn from_toml_value(v: toml::Value) -> DocValue {
    match v {
        toml::Value::String(s) => DocValue::Str(s),
        toml::Value::Integer(_) | toml::Value::Float(_) => DocValue::Number,
        toml::Value::Boolean(_) => DocValue::Bool,
        toml::Value::Datetime(_) => DocValue::Datetime,
        toml::Value::Array(a) => DocValue::Array(a.into_iter().map(from_toml_value).collect()),
        toml::Value::Table(t) => DocValue::Table(
            t.into_iter().map(|(key, value)| DocEntry { key, value: from_toml_value(value) }).collect(),
        ),
    }
}

/// Converts a value of `serde_json` variant by variant.
#[verifier::external_body]
fn from_json_value(v: serde_json::Value) -> DocValue {
    match v {
        serde_json::Value::Null => DocValue::Null,
        serde_json::Value::Bool(_) => DocValue::Bool,
        serde_json::Value::Number(_) => DocValue::Number,
        serde_json::Value::String(s) => DocValue::Str(s),
        serde_json::Value::Array(a) => DocValue::Array(a.into_iter().map(from_json_value).collect()),
        serde_json::Value::Object(m) => DocValue::Table(
            m.into_iter().map(|(key, value)| DocEntry { key, value: from_json_value(value) }).collect(),
        ),
    }
}

/// Reads `text` as a TOML document with `toml::from_str::<toml::Value>`.
/// Claims that the result is the document named by [`toml_document`]; what the
/// document holds (a table in most cases, but not for every text) is not stated.
#[verifier::external_body]
pub(crate) fn read_toml(text: &str) -> (res: Result<DocValue, String>)
    ensures
        match res {
            Ok(d) => toml_document(text@) == Ok::<DocValue, Seq<char>>(d),
            Err(e) => toml_document(text@) == Err::<DocValue, Seq<char>>(e@),
        },
{
    match toml::from_str::<toml::Value>(text) {
        Ok(v) => Ok(from_toml_value(v)),
        Err(e) => Err(e.to_string()),
    }
}

/// Reads `text` as a JSON document with `serde_json::from_str::<serde_json::Value>`.
/// Claims that the result is the document named by [`json_document`]; what the
/// document holds is not stated.
#[verifier::external_body]
pub(crate) fn read_json(text: &str) -> (res: Result<DocValue, String>)
    ensures
        match res {
            Ok(d) => json_document(text@) == Ok::<DocValue, Seq<char>>(d),
            Err(e) => json_document(text@) == Err::<DocValue, Seq<char>>(e@),
        },
{
    match serde_json::from_str::<serde_json::Value>(text) {
        Ok(v) => Ok(from_json_value(v)),
        Err(e) => Err(e.to_string()),
    }
}

// ---------------------------------------------------------------------------
// Lookups
// ---------------------------------------------------------------------------

/// The value of the first entry named `key`.
pub open spec fn lookup(entries: Seq<DocEntry>, key: Seq<char>) -> Option<DocValue>
    decreases entries.len(),
{
    if entries.len() == 0 {
        None
    } else if entries[0].key@ == key {
        Some(entries[0].value)
    } else {
        lookup(entries.drop_first(), key)
    }
}

/// Every key of `entries` is one of `allowed`.
pub open spec fn keys_within(entries: Seq<DocEntry>, allowed: Seq<Seq<char>>) -> bool {
    forall|i: int| 0 <= i < entries.len() ==> allowed.contains(#[trigger] entries[i].key@)
}

/// A required string field: `None` when it is missing or not a string.
pub open spec fn str_field(entries: Seq<DocEntry>, key: Seq<char>) -> Option<Seq<char>> {
    match lookup(entries, key) {
        Some(DocValue::Str(s)) => Some(s@),
        _ => None,
    }
}

/// An optional string field: `Some(None)` when it is missing or null, `None` when it is
/// present and not a string.
pub open spec fn opt_str_field(entries: Seq<DocEntry>, key: Seq<char>) -> Option<Option<Seq<char>>> {
    match lookup(entries, key) {
        None => Some(None),
        Some(DocValue::Null) => Some(None),
        Some(DocValue::Str(s)) => Some(Some(s@)),
        _ => None,
    }
}

/// A list field that defaults to empty: `None` when present and not an array.
pub open spec fn list_field(entries: Seq<DocEntry>, key: Seq<char>) -> Option<Seq<DocValue>> {
    match lookup(entries, key) {
        None => Some(Seq::empty()),
        Some(DocValue::Array(v)) => Some(v@),
        _ => None,
    }
}

/// The value of the first entry named `key`.
pub fn get_field<'a>(entries: &'a Vec<DocEntry>, key: &str) -> (r: Option<&'a DocValue>)
    ensures
        match r {
            Some(v) => lookup(entries@, key@) == Some(*v),
            None => lookup(entries@, key@) is None,
        },
{
    let mut i: usize = 0;
    assert(entries@.skip(0) =~= entries@);
    while i < entries.len()
        invariant
            i <= entries@.len(),
            lookup(entries@, key@) == lookup(entries@.skip(i as int), key@),
        decreases entries@.len() - i,
    {
        assert(entries@.skip(i as int).drop_first() =~= entries@.skip(i as int + 1));
        if crate::text::str_eq(entries[i].key.as_str(), key) {
            return Some(&entries[i].value);
        }
        i = i + 1;
    }
    None
}

/// Whether every key of `entries` is one of `allowed`.
pub fn check_keys(entries: &Vec<DocEntry>, allowed: &[&str]) -> (r: bool)
    ensures
        r == keys_within(entries@, allowed@.map_values(|s: &str| s@)),
{
    let ghost al = allowed@.map_values(|s: &str| s@);
    let mut i: usize = 0;
    while i < entries.len()
        invariant
            i <= entries@.len(),
            al == allowed@.map_values(|s: &str| s@),
            forall|k: int| 0 <= k < i ==> al.contains(#[trigger] entries@[k].key@),
        decreases entries@.len() - i,
    {
        let mut found = false;
        let mut j: usize = 0;
        while j < allowed.len()
            invariant
                j <= allowed@.len(),
                al == allowed@.map_values(|s: &str| s@),
                i < entries@.len(),
                found == exists|m: int| 0 <= m < j && al[m] == entries@[i as int].key@,
            decreases allowed@.len() - j,
        {
            let same = crate::text::str_eq(entries[i].key.as_str(), allowed[j]);
            assert(al[j as int] == allowed@[j as int]@);
            if same {
                found = true;
            }
            j = j + 1;
        }
        if !found {
            assert(!al.contains(entries@[i as int].key@));
            return false;
        }
        i = i + 1;
    }
    true
}

/// A required string field.
pub fn read_str(entries: &Vec<DocEntry>, key: &str) -> (r: Option<String>)
    ensures
        match r {
            Some(s) => str_field(entries@, key@) == Some(s@),
            None => str_field(entries@, key@) is None,
        },
{
    match get_field(entries, key) {
        Some(DocValue::Str(s)) => Some(s.clone()),
        _ => None,
    }
}

/// An optional string field; the outer `None` when present and not a string.
pub fn read_opt_str(entries: &Vec<DocEntry>, key: &str) -> (r: Option<Option<String>>)
    ensures
        match r {
            Some(o) => opt_str_field(entries@, key@) == Some(crate::model::opt_str(o)),
            None => opt_str_field(entries@, key@) is None,
        },
{
    match get_field(entries, key) {
        None => Some(None),
        Some(DocValue::Null) => Some(None),
        Some(DocValue::Str(s)) => Some(Some(s.clone())),
        _ => None,
    }
}

/// A list field that defaults to empty.
pub fn read_list<'a>(entries: &'a Vec<DocEntry>, key: &str) -> (r: Option<&'a [DocValue]>)
    ensures
        match r {
            Some(v) => list_field(entries@, key@) == Some(v@),
            None => list_field(entries@, key@) is None,
        },
{
    match get_field(entries, key) {
        None => Some(&[]),
        Some(DocValue::Array(v)) => Some(v.as_slice()),
        _ => None,
    }
}

} // verus!
