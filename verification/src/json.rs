//! Reading one string field out of a JSON text.
use vstd::prelude::*;

verus! {

/// The string that `serde_json` finds at a JSON pointer (such as
/// `/error/message`) of a JSON text: `None` when the text is not JSON, or
/// nothing is there, or what is there is not a string.
pub uninterp spec fn json_pointer_str(text: Seq<char>, pointer: Seq<char>) -> Option<Seq<char>>;

/// Parses `text` with `serde_json::from_str::<serde_json::Value>`, looks up
/// `pointer` with `Value::pointer` and reads the result with `Value::as_str`.
/// The result is stated only through the name `json_pointer_str`: what JSON
/// parsing gives for a text is not restated here.
#[verifier::external_body]
pub(crate) fn json_string_at(text: &str, pointer: &str) -> (r: Option<String>)
    ensures
        match json_pointer_str(text@, pointer@) {
            Some(s) => r matches Some(v) && v@ == s,
            None => r is None,
        },
{
    let value: serde_json::Value = match serde_json::from_str(text) {
        Ok(v) => v,
        Err(_) => return None,
    };
    let found = value.pointer(pointer)?.as_str()?;
    Some(found.to_string())
}

} // verus!
