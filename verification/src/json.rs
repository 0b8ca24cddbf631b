//! What is read from JSON documents, and how texts are written in them.

use vstd::prelude::*;

use crate::chain::hex_text;
use crate::text::texts;

verus! {

/// A character as it stands in a JSON string: a quotation mark or a backslash behind a
/// backslash, a control character by its short name or its number, any other as it is.
pub open spec fn json_character(c: char) -> Seq<char> {
    let code = c as int;
    if c == '"' || c == '\\' {
        seq!['\\', c]
    } else if code == 0x08 {
        seq!['\\', 'b']
    } else if code == 0x09 {
        seq!['\\', 't']
    } else if code == 0x0a {
        seq!['\\', 'n']
    } else if code == 0x0c {
        seq!['\\', 'f']
    } else if code == 0x0d {
        seq!['\\', 'r']
    } else if code < 0x20 {
        seq!['\\', 'u', '0', '0'] + hex_text(seq![code as u8])
    } else {
        seq![c]
    }
}

/// The characters of a text as they stand in a JSON string.
pub open spec fn json_characters(text: Seq<char>) -> Seq<char>
    decreases text.len(),
{
    if text.len() == 0 {
        Seq::empty()
    } else {
        json_characters(text.drop_last()) + json_character(text.last())
    }
}

/// A text as a JSON string, with its quotation marks.
pub open spec fn json_quoted(text: Seq<char>) -> Seq<char> {
    seq!['"'] + json_characters(text) + seq!['"']
}

/// A JSON document, written without white space; none where the text is no JSON.
pub uninterp spec fn json_compact(text: Seq<char>) -> Option<Seq<char>>;

/// The string at a place in a JSON document: nothing where the text is no JSON, and
/// nothing within where there is no string at that place.
pub uninterp spec fn json_text_at(text: Seq<char>, place: Seq<char>) -> Option<Option<Seq<char>>>;

/// The elements of the array at a place in a JSON document, each as JSON: nothing where
/// the text is no JSON, and nothing within where there is no array at that place.
pub uninterp spec fn json_list_at(text: Seq<char>, place: Seq<char>) -> Option<
    Option<Seq<Seq<char>>>,
>;

/// Writes a text as a JSON string with `serde_json`'s `Value`. It puts the text between
/// quotation marks, and writes quotation marks, backslashes and the control characters
/// below a space with a backslash, those without a short name as `\u00` and two lower-case
/// hexadecimal digits.
#[verifier::external_body]
pub(crate) fn quote(text: &str) -> (res: String)
    ensures
        res@ == json_quoted(text@),
{
    serde_json::Value::from(text).to_string()
}

/// Reads a JSON document with `serde_json::from_str` and writes it again. The result
/// is taken to be a function of the text alone.
#[verifier::external_body]
pub(crate) fn compact(text: &str) -> (res: Option<String>)
    ensures
        match res {
            Some(t) => json_compact(text@) == Some(t@),
            None => json_compact(text@) is None,
        },
{
    match serde_json::from_str::<serde_json::Value>(text) {
        Ok(v) => Some(v.to_string()),
        Err(_) => None,
    }
}

/// Reads a JSON document with `serde_json::from_str`, and in it the string at a place
/// with `Value::pointer` and `Value::as_str`. The result is taken to be a function of
/// text and place alone.
#[verifier::external_body]
pub(crate) fn text_at(text: &str, place: &str) -> (res: Option<Option<String>>)
    ensures
        match res {
            Some(Some(t)) => json_text_at(text@, place@) == Some(Some(t@)),
            Some(None) => json_text_at(text@, place@) == Some(None::<Seq<char>>),
            None => json_text_at(text@, place@) is None,
        },
{
    match serde_json::from_str::<serde_json::Value>(text) {
        Ok(v) => Some(v.pointer(place).and_then(|x| x.as_str()).map(|x| x.to_owned())),
        Err(_) => None,
    }
}

/// Reads a JSON document with `serde_json::from_str`, and in it the array at a place
/// with `Value::pointer` and `Value::as_array`, each element written again as JSON. The
/// result is taken to be a function of text and place alone.
#[verifier::external_body]
pub(crate) fn list_at(text: &str, place: &str) -> (res: Option<Option<Vec<String>>>)
    ensures
        match res {
            Some(Some(list)) => json_list_at(text@, place@) == Some(Some(texts(list@))),
            Some(None) => json_list_at(text@, place@) == Some(None::<Seq<Seq<char>>>),
            None => json_list_at(text@, place@) is None,
        },
{
    match serde_json::from_str::<serde_json::Value>(text) {
        Ok(v) => Some(
            v.pointer(place).and_then(|x| x.as_array()).map(
                |list| list.iter().map(|x| x.to_string()).collect(),
            ),
        ),
        Err(_) => None,
    }
}

} // verus!
