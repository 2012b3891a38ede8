//! JSON text, read and written by the `serde_json` crate.

use vstd::prelude::*;

use crate::commands::{Argument, ArgumentView};

verus! {

/// `serde_json::Error`. Nothing is known of what it holds.
#[verifier::external_type_specification]
#[verifier::external_body]
pub struct ExJsonError(serde_json::Error);

/// What `text` holds under `key`, as `serde_json` reads it: `None` where
/// `text` is not one JSON document; `Some(None)` where it is one that has no
/// member `key`, being an object without it or no object at all; else the
/// member, written out as compact JSON text.
pub uninterp spec fn json_member(text: Seq<char>, key: Seq<char>) -> Option<Option<Seq<char>>>;

/// The string that `text` holds, as `serde_json` reads it: `None` where
/// `text` is not one JSON string.
pub uninterp spec fn json_string(text: Seq<char>) -> Option<Seq<char>>;

/// Whether a character stands for itself inside a JSON string: it is no
/// quotation mark, no backslash and no control character.
pub open spec fn is_plain(c: char) -> bool {
    c != '"' && c != '\\' && c >= ' '
}

/// Whether `text` is a run of plain characters between two quotation marks.
pub open spec fn is_quoted(text: Seq<char>) -> bool {
    &&& text.len() >= 2
    &&& text.first() == '"'
    &&& text.last() == '"'
    &&& forall|i: int| 1 <= i < text.len() - 1 ==> is_plain(#[trigger] text[i])
}

/// What stands between the first and the last character of `text`.
pub open spec fn unquoted(text: Seq<char>) -> Seq<char> {
    text.subrange(1, text.len() - 1)
}

/// The JSON text of the object whose one member, `key`, is the array of
/// `words`, as `serde_json` writes it.
pub uninterp spec fn json_request(key: Seq<char>, words: Seq<ArgumentView>) -> Seq<char>;

/// Parses `text` with `serde_json::from_str` into a `serde_json::Value`,
/// looks `key` up in it with `Value::get` and writes the member out with
/// `to_string`, that is through the `Display` of `Value`, which writes
/// compact JSON. The contract gives what comes back its name, `json_member`:
/// an error for a text that is no JSON document, else the member's text or
/// `None`. Each of the three calls depends on its arguments alone.
#[verifier::external_body]
pub(crate) fn member_text(text: &str, key: &str) -> (member: Result<
    Option<String>,
    serde_json::Error,
>)
    ensures
        match member {
            Ok(Some(found)) => json_member(text@, key@) == Some(Some(found@)),
            Ok(None) => json_member(text@, key@) == Some(None::<Seq<char>>),
            Err(_) => json_member(text@, key@) is None,
        },
{
    let document: serde_json::Value = serde_json::from_str(text)?;
    Ok(document.get(key).map(|member| member.to_string()))
}

/// Parses `text` with `serde_json::from_str` into a `String`, which
/// succeeds where `text` is one JSON string and gives the string that it
/// holds. The contract gives what comes back its name, `json_string`, and
/// says what it is in the plain case: the parser takes every character up to
/// the next quotation mark as it stands, unless it is a backslash or a
/// control character, so a run of plain characters between two quotation
/// marks holds just that run.
#[verifier::external_body]
pub(crate) fn string_text(text: &str) -> (parsed: Result<String, serde_json::Error>)
    ensures
        match parsed {
            Ok(held) => json_string(text@) == Some(held@),
            Err(_) => json_string(text@) is None,
        },
        is_quoted(text@) ==> parsed is Ok && parsed.unwrap()@ == unquoted(text@),
{
    serde_json::from_str(text)
}

/// Builds the `serde_json::Value` of an object whose one member, `key`, is
/// the array of `words`, each word turned into a `Value` by `Value::from`,
/// and writes it out with `to_string`, that is through the `Display` of
/// `Value`, which writes compact JSON. The contract gives the text its name,
/// `json_request`; the text depends on `key` and `words` alone.
#[verifier::external_body]
pub(crate) fn request_text(key: &str, words: &Vec<Argument>) -> (text: String)
    ensures
        text@ == json_request(key@, words.deep_view()),
{
    let mut items: Vec<serde_json::Value> = Vec::new();
    for word in words {
        items.push(match word {
            Argument::Text(text) => serde_json::Value::from(text.as_str()),
            Argument::Number(number) => serde_json::Value::from(*number),
            Argument::Flag(flag) => serde_json::Value::from(*flag),
        });
    }
    let mut document = serde_json::Map::new();
    document.insert(key.to_string(), serde_json::Value::Array(items));
    serde_json::Value::Object(document).to_string()
}

} // verus!
