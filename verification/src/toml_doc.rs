//! The TOML reader that the configuration check relies on. Nothing in this
//! file is proved: each contract records what `toml` is taken to do.

use vstd::prelude::*;

verus! {

/// `toml::Value`, a parsed TOML document or a value in one. Opaque: what
/// the library reads of one goes through `toml_entries`.
#[verifier::external_type_specification]
#[verifier::external_body]
pub struct ExTomlValue(toml::Value);

/// `toml::de::Error`, the reason a text was not accepted as TOML. Opaque.
#[verifier::external_type_specification]
#[verifier::external_body]
pub struct ExTomlError(toml::de::Error);

/// The entries of a TOML table by key, each with the integer it holds, or
/// with `None` where it holds anything else. A value that is not a table
/// has no entries.
pub uninterp spec fn toml_entries(doc: toml::Value) -> Map<Seq<char>, Option<i64>>;

/// The top-level entries of the document that a text spells, or `None`
/// where the text is not a TOML document.
pub uninterp spec fn toml_text_entries(text: Seq<char>) -> Option<Map<Seq<char>, Option<i64>>>;

/// `toml::from_str`, read into a `toml::Value`. The result depends on the
/// text alone: the same text is accepted or refused every time, and when
/// accepted spells the same entries. Nesting deeper than the reader's limit
/// is refused like any other malformed text.
#[verifier::external_body]
pub(crate) fn parse_toml(text: &str) -> (parsed: Result<toml::Value, toml::de::Error>)
    ensures
        match parsed {
            Ok(doc) => toml_text_entries(text@) == Some(toml_entries(doc)),
            Err(_) => toml_text_entries(text@) is None,
        },
{
    toml::from_str::<toml::Value>(text)
}

/// `toml::Value::get` with a key. It finds nothing in a value that is not
/// a table or that has no entry under that key. Of the entry found, the
/// wrapper hands out the integer where it is a `Value::Integer`, and `None`
/// for any other kind of value.
#[verifier::external_body]
pub(crate) fn integer_entry(doc: &toml::Value, key: &str) -> (entry: Option<Option<i64>>)
    ensures
        entry == toml_entries(*doc).get(key@),
{
    match doc.get(key) {
        Some(toml::Value::Integer(number)) => Some(Some(*number)),
        Some(_) => Some(None),
        None => None,
    }
}

} // verus!
