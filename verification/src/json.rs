//! The few operations on JSON documents that the upload protocol needs,
//! delegated to `serde_json`.

use vstd::prelude::*;

verus! {

/// `serde_json::Value`: a JSON document, of which nothing is seen here
/// but what the functions below read from it.
#[verifier::external_type_specification]
#[verifier::external_body]
pub struct ExJsonValue(serde_json::Value);

/// `serde_json::Error`: why a text is no JSON document.
#[verifier::external_type_specification]
#[verifier::external_body]
pub struct ExJsonError(serde_json::Error);

/// What `serde_json::from_str` makes of a text: the document, or the error
/// where the text is not valid JSON.
pub uninterp spec fn json_parsed(text: Seq<char>) -> Result<serde_json::Value, serde_json::Error>;

/// The member that `Value::get` finds under a string key.
pub uninterp spec fn json_member(doc: serde_json::Value, key: Seq<char>) -> Option<
    serde_json::Value,
>;

/// The text that `Value::as_str` reads from a document.
pub uninterp spec fn json_text(doc: serde_json::Value) -> Option<Seq<char>>;

/// The number that `Value::as_u64` reads from a document.
pub uninterp spec fn json_number(doc: serde_json::Value) -> Option<u64>;

/// The truth value that `Value::as_bool` reads from a document.
pub uninterp spec fn json_flag(doc: serde_json::Value) -> Option<bool>;

/// The message that a parse error displays.
pub uninterp spec fn json_error_text(err: serde_json::Error) -> Seq<char>;

/// `serde_json::from_str` at type `Value`: parsing is a function of the text
/// alone, so the document or the error is fixed by [`json_parsed`].
#[verifier::external_body]
pub(crate) fn parse_json(text: &str) -> (r: Result<serde_json::Value, serde_json::Error>)
    ensures
        r == json_parsed(text@),
{
    serde_json::from_str::<serde_json::Value>(text)
}

/// `Value::get` with a string key: the member of an object under that key,
/// `None` for a missing key or a document that is no object.
#[verifier::external_body]
pub(crate) fn member<'a>(doc: &'a serde_json::Value, key: &str) -> (r: Option<
    &'a serde_json::Value,
>)
    ensures
        match r {
            Some(m) => json_member(*doc, key@) == Some(*m),
            None => json_member(*doc, key@) is None,
        },
{
    doc.get(key)
}

/// `Value::as_str`: the text of a JSON string, `None` for any other document.
pub assume_specification<'a>[ serde_json::Value::as_str ](doc: &'a serde_json::Value) -> (r:
    Option<&'a str>)
    ensures
        match r {
            Some(s) => json_text(*doc) == Some(s@),
            None => json_text(*doc) is None,
        },
;

/// `Value::as_u64`: the value of a JSON integer that fits `u64`, `None` for
/// any other document.
pub assume_specification[ serde_json::Value::as_u64 ](doc: &serde_json::Value) -> (r: Option<u64>)
    ensures
        r == json_number(*doc),
;

/// `Value::as_bool`: the value of a JSON boolean, `None` for any other document.
pub assume_specification[ serde_json::Value::as_bool ](doc: &serde_json::Value) -> (r: Option<
    bool,
>)
    ensures
        r == json_flag(*doc),
;

/// `ToString::to_string` on a parse error: the message it displays.
#[verifier::external_body]
pub(crate) fn error_message(err: &serde_json::Error) -> (r: String)
    ensures
        r@ == json_error_text(*err),
{
    err.to_string()
}

/// `Clone::clone` on a document: an equal document.
pub assume_specification[ <serde_json::Value as Clone>::clone ](doc: &serde_json::Value) -> (r:
    serde_json::Value)
    ensures
        r == *doc,
;

} // verus!
