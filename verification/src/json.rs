//! JSON documents, read through `serde_json`.

use vstd::prelude::*;

verus! {

#[verifier::external_type_specification]
#[verifier::external_body]
pub struct ExJsonValue(serde_json::Value);

/// The strings that a document holds two levels down, each under the key of
/// the member it stands in and its own key in that member.
pub uninterp spec fn json_strings(doc: serde_json::Value) -> Map<(Seq<char>, Seq<char>), Seq<char>>;

/// The strings two levels down in the document that `content` parses to, or
/// the parser's complaint where `content` is no JSON document.
pub uninterp spec fn json_parsed(content: Seq<u8>) -> Result<
    Map<(Seq<char>, Seq<char>), Seq<char>>,
    Seq<char>,
>;

/// The string under a pair of keys, where there is one.
pub open spec fn string_at(
    strings: Map<(Seq<char>, Seq<char>), Seq<char>>,
    outer: Seq<char>,
    inner: Seq<char>,
) -> Option<Seq<char>> {
    if strings.contains_key((outer, inner)) {
        Some(strings[(outer, inner)])
    } else {
        None
    }
}

/// Calls `serde_json::from_slice` for a `Value`. The contract names what the
/// call gives: the document, by the strings it holds, or the text of the
/// error where the bytes are no JSON document.
#[verifier::external_body]
pub(crate) fn parse_json(content: &[u8]) -> (r: Result<serde_json::Value, String>)
    ensures
        match r {
            Ok(doc) => json_parsed(content@) == Ok::<
                Map<(Seq<char>, Seq<char>), Seq<char>>,
                Seq<char>,
            >(json_strings(doc)),
            Err(message) => json_parsed(content@) == Err::<
                Map<(Seq<char>, Seq<char>), Seq<char>>,
                Seq<char>,
            >(message@),
        },
{
    match serde_json::from_slice::<serde_json::Value>(content) {
        Ok(doc) => Ok(doc),
        Err(e) => Err(format!("{}", e)),
    }
}

/// Indexes a `serde_json::Value` by two keys in turn and calls `as_str` on
/// what is there. The contract says that the result is the string that the
/// document holds under the two keys, and that there is none where the call
/// gives none: indexing gives the null value where a key is missing or the
/// value is no object, and `as_str` gives a string for a string alone.
#[verifier::external_body]
pub(crate) fn nested_string<'a>(doc: &'a serde_json::Value, outer: &str, inner: &str) -> (r: Option<
    &'a str,
>)
    ensures
        match r {
            Some(text) => string_at(json_strings(*doc), outer@, inner@) == Some(text@),
            None => string_at(json_strings(*doc), outer@, inner@) is None,
        },
{
    doc[outer][inner].as_str()
}

} // verus!
