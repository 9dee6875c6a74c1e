//! Reading one value of a Codex TOML configuration through the `toml` crate.

use vstd::prelude::*;

verus! {

/// What a lookup found, as the `toml` crate reports it.
#[derive(Debug)]
pub enum TomlValue {
    /// The text is not a TOML document.
    Invalid,
    /// The document has no such value.
    Missing,
    /// A string.
    Text(String),
    /// An array of this many items.
    Array(usize),
    /// Some other kind of value.
    Other,
}

/// A lookup's outcome by its values.
pub enum TomlFound {
    Invalid,
    Missing,
    Text(Seq<char>),
    Array(nat),
    Other,
}

pub open spec fn lookup_view(v: TomlValue) -> TomlFound {
    match v {
        TomlValue::Invalid => TomlFound::Invalid,
        TomlValue::Missing => TomlFound::Missing,
        TomlValue::Text(s) => TomlFound::Text(s@),
        TomlValue::Array(n) => TomlFound::Array(n as nat),
        TomlValue::Other => TomlFound::Other,
    }
}

/// What the `toml` crate finds at `table.key` (or at `key` with no table) of
/// the document `source`.
pub uninterp spec fn toml_lookup(source: Seq<char>, table: Option<Seq<char>>, key: Seq<char>) -> TomlFound;

/// Parses `source` with `toml::from_str` into a `toml::Value`, looks up
/// `table` (when given) and then `key` with `Value::get`, and reports a string
/// (`Value::as_str`) or an array's length (`Value::as_array`). The outcome is
/// named by `toml_lookup`: it depends on these arguments alone. The TOML
/// grammar itself is not stated.
#[verifier::external_body]
pub(crate) fn toml_value(source: &str, table: Option<&str>, key: &str) -> (r: TomlValue)
    ensures
        lookup_view(r) == toml_lookup(source@, match table { Some(t) => Some(t@), None => None }, key@),
{
    let Ok(document) = toml::from_str::<toml::Value>(source) else { return TomlValue::Invalid };
    let scope = match table {
        Some(t) => document.get(t),
        None => Some(&document),
    };
    match scope.and_then(|v| v.get(key)) {
        None => TomlValue::Missing,
        Some(toml::Value::String(s)) => TomlValue::Text(s.clone()),
        Some(toml::Value::Array(items)) => TomlValue::Array(items.len()),
        Some(_) => TomlValue::Other,
    }
}

} // verus!
