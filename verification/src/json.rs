//! The stored form of a menu's mapping: a JSON list of token and candidate
//! pairs, written and read by `serde_json`.

use crate::error::MenuError;
use crate::registry::mapping_view;
use vstd::prelude::*;

verus! {

/// The JSON text that `serde_json::to_string` gives for a list of token and
/// candidate pairs, or `None` where it reports an error.
pub uninterp spec fn json_of_mapping(mapping: Seq<(Seq<char>, i32)>) -> Option<Seq<char>>;

/// The list of token and candidate pairs that `serde_json::from_str` reads
/// from a text, or `None` where it reports an error.
pub uninterp spec fn mapping_of_json(text: Seq<char>) -> Option<Seq<(Seq<char>, i32)>>;

/// `serde_json::Error`, carried from the calls below to where it is mapped
/// to a failure of this library. Nothing is claimed of what it holds.
#[verifier::external_type_specification]
#[verifier::external_body]
pub struct ExJsonError(serde_json::Error);

/// `serde_json::to_string` on a list of pairs. Trusted: the call is a
/// function of the list alone, so its outcome is `json_of_mapping` of the
/// list's view.
#[verifier::external_body]
fn to_json(mapping: &Vec<(String, i32)>) -> (text: Result<String, serde_json::Error>)
    ensures
        match text {
            Ok(t) => json_of_mapping(mapping_view(mapping@)) == Some(t@),
            Err(_) => json_of_mapping(mapping_view(mapping@)) is None,
        },
{
    serde_json::to_string(mapping)
}

/// `serde_json::from_str` for a list of pairs. Trusted: the call is a
/// function of the text alone, so its outcome is `mapping_of_json` of the
/// text's view.
#[verifier::external_body]
fn from_json(text: &str) -> (mapping: Result<Vec<(String, i32)>, serde_json::Error>)
    ensures
        match mapping {
            Ok(m) => mapping_of_json(text@) == Some(mapping_view(m@)),
            Err(_) => mapping_of_json(text@) is None,
        },
{
    serde_json::from_str(text)
}

/// The value that the keyed store holds for a mapping.
pub fn encode_mapping(mapping: &Vec<(String, i32)>) -> (value: Result<String, MenuError>)
    ensures
        match value {
            Ok(text) => json_of_mapping(mapping_view(mapping@)) == Some(text@),
            Err(error) => error == MenuError::MalformedMenuRecord && json_of_mapping(
                mapping_view(mapping@),
            ) is None,
        },
{
    match to_json(mapping) {
        Ok(text) => Ok(text),
        Err(_) => Err(MenuError::MalformedMenuRecord),
    }
}

/// The mapping that a value of the keyed store holds, or
/// `MalformedMenuRecord` where the value is not the JSON of a mapping.
pub fn decode_mapping(value: &str) -> (mapping: Result<Vec<(String, i32)>, MenuError>)
    ensures
        match mapping {
            Ok(m) => mapping_of_json(value@) == Some(mapping_view(m@)),
            Err(error) => error == MenuError::MalformedMenuRecord && mapping_of_json(value@)
                is None,
        },
{
    match from_json(value) {
        Ok(mapping) => Ok(mapping),
        Err(_) => Err(MenuError::MalformedMenuRecord),
    }
}

} // verus!
