//! The catalog: a list of loosely typed records, of which the pipeline reads
//! three fields and hands the rest on untouched.

use vstd::prelude::*;
use serde_json::Value;

verus! {

#[verifier::external_type_specification]
#[verifier::external_body]
pub struct ExJsonValue(serde_json::Value);

#[verifier::external_type_specification]
#[verifier::external_body]
#[verifier::reject_recursive_types(K)]
#[verifier::reject_recursive_types(V)]
pub struct ExJsonMap<K, V>(serde_json::Map<K, V>);

/// Key of the package id in a record.
pub const KEY_ID: &'static str = "id";

/// Key of the package version in a record.
pub const KEY_VERSION: &'static str = "version";

/// Key of the API version in a record.
pub const KEY_WASM_API_VERSION: &'static str = "wasm_api_version";

/// What a field of a record holds, as far as the pipeline looks.
#[derive(Debug, PartialEq, Eq)]
pub enum JsonField {
    /// An explicit null.
    Null,
    /// A string.
    Text(String),
    /// A boolean, a number, an array or an object.
    Other,
}

/// Mathematical content of a [`JsonField`].
pub enum JsonShape {
    Null,
    Text(Seq<char>),
    Other,
}

impl View for JsonField {
    type V = JsonShape;

    open spec fn view(&self) -> JsonShape {
        match self {
            JsonField::Null => JsonShape::Null,
            JsonField::Text(s) => JsonShape::Text(s@),
            JsonField::Other => JsonShape::Other,
        }
    }
}

/// The fields of a record: for each key that the record has, the shape of
/// its value.
pub uninterp spec fn record_entries(rec: serde_json::Map<String, Value>) -> Map<
    Seq<char>,
    JsonShape,
>;

/// The field of a record under a key, if the record has the key.
pub open spec fn entry(entries: Map<Seq<char>, JsonShape>, key: Seq<char>) -> Option<JsonShape> {
    if entries.contains_key(key) {
        Some(entries[key])
    } else {
        None
    }
}

/// The text under a key, if the record has the key and its value is a
/// string.
pub open spec fn entry_text(entries: Map<Seq<char>, JsonShape>, key: Seq<char>) -> Option<
    Seq<char>,
> {
    match entry(entries, key) {
        Some(JsonShape::Text(s)) => Some(s),
        _ => None,
    }
}

/// Calls `serde_json::Map::get` and tells the variants of the value apart.
/// Trusted: the result is the record's field under the key, `None` where
/// the record lacks the key.
#[verifier::external_body]
fn record_get(rec: &serde_json::Map<String, Value>, key: &str) -> (r: Option<JsonField>)
    ensures
        match r {
            Some(f) => entry(record_entries(*rec), key@) == Some(f@),
            None => entry(record_entries(*rec), key@) is None,
        },
{
    rec.get(key).map(
        |v|
            match v {
                Value::Null => JsonField::Null,
                Value::String(s) => JsonField::Text(s.clone()),
                Value::Bool(_) => JsonField::Other,
                Value::Number(_) => JsonField::Other,
                Value::Array(_) => JsonField::Other,
                Value::Object(_) => JsonField::Other,
            },
    )
}

/// Calls `serde_json::Map::remove`. Trusted: the record loses the key and
/// keeps every other field.
#[verifier::external_body]
fn record_remove(rec: &mut serde_json::Map<String, Value>, key: &str)
    ensures
        record_entries(*final(rec)) == record_entries(*old(rec)).remove(key@),
{
    rec.remove(key);
}

/// The text of a record's field, if the field is there and holds a string.
pub fn record_text(rec: &serde_json::Map<String, Value>, key: &str) -> (r: Option<String>)
    ensures
        crate::text::opt_text(r) == entry_text(record_entries(*rec), key@),
{
    match record_get(rec, key) {
        Some(JsonField::Text(s)) => Some(s),
        _ => None,
    }
}

/// The fields of a record as the index takes them: without the API version
/// where that is an explicit null.
pub open spec fn without_null_api_version(entries: Map<Seq<char>, JsonShape>) -> Map<
    Seq<char>,
    JsonShape,
> {
    if entry(entries, KEY_WASM_API_VERSION@) == Some(JsonShape::Null) {
        entries.remove(KEY_WASM_API_VERSION@)
    } else {
        entries
    }
}

/// Drops the API version from a record where it is an explicit null.
pub fn drop_null_api_version(rec: &mut serde_json::Map<String, Value>)
    ensures
        record_entries(*final(rec)) == without_null_api_version(record_entries(*old(rec))),
{
    match record_get(rec, KEY_WASM_API_VERSION) {
        Some(JsonField::Null) => {
            record_remove(rec, KEY_WASM_API_VERSION);
        },
        _ => {},
    }
}

/// The catalog as the registry sends it.
pub struct ExtensionListData {
    pub data: Vec<serde_json::Map<String, Value>>,
}

/// Why a catalog cannot be mirrored.
#[derive(Debug, Clone, Copy, PartialEq, Eq, Structural)]
pub enum CatalogError {
    /// A record has no `id`, or one that is not a string.
    MissingId,
    /// A record has no `version`, or one that is not a string.
    MissingVersion,
}

impl CatalogError {
    /// The error in words.
    pub fn message(&self) -> (r: &'static str)
        ensures
            r@ == match *self {
                CatalogError::MissingId => "document lacks string id field"@,
                CatalogError::MissingVersion => "document lacks string version field"@,
            },
    {
        match self {
            CatalogError::MissingId => "document lacks string id field",
            CatalogError::MissingVersion => "document lacks string version field",
        }
    }
}

} // verus!
