//! JSON decoding, which `serde_json` does. Nothing in this file is proved:
//! each function states what the decoder is taken to return.

use crate::strings::names_view;
use crate::strings::pairs_view;
use vstd::prelude::*;

verus! {

/// The error type of `serde_json`.
#[verifier::external_type_specification]
#[verifier::external_body]
pub struct ExJsonError(serde_json::Error);

/// What `serde_json::from_str` makes of `text` when asked for a map from
/// strings to strings: its entries in ascending order of their keys, or
/// `None` where it reports an error.
pub uninterp spec fn json_string_map(text: Seq<char>) -> Option<Seq<(Seq<char>, Seq<char>)>>;

/// What `serde_json::from_slice` makes of `bytes` when asked for a string, or
/// `None` where it reports an error.
pub uninterp spec fn json_string(bytes: Seq<u8>) -> Option<Seq<char>>;

/// What `serde_json::from_slice` makes of `bytes` when asked for a list of
/// strings, or `None` where it reports an error.
pub uninterp spec fn json_string_list(bytes: Seq<u8>) -> Option<Seq<Seq<char>>>;

/// Calls `serde_json::from_str` for a `BTreeMap<String, String>` and hands
/// out its entries in the map's own order. The contract claims only that the
/// outcome is a function of `text`, under the name `json_string_map`.
#[verifier::external_body]
pub(crate) fn parse_string_map(text: &str) -> (r: Result<Vec<(String, String)>, serde_json::Error>)
    ensures
        match r {
            Ok(entries) => json_string_map(text@) == Some(pairs_view(entries@)),
            Err(_) => json_string_map(text@) is None,
        },
{
    let parsed: Result<std::collections::BTreeMap<String, String>, serde_json::Error> =
        serde_json::from_str(text);
    match parsed {
        Ok(map) => Ok(map.into_iter().collect()),
        Err(e) => Err(e),
    }
}

/// Calls `serde_json::from_slice` for a `String`. The contract claims only
/// that the outcome is a function of `bytes`, under the name `json_string`.
#[verifier::external_body]
pub(crate) fn parse_string(bytes: &[u8]) -> (r: Result<String, serde_json::Error>)
    ensures
        match r {
            Ok(s) => json_string(bytes@) == Some(s@),
            Err(_) => json_string(bytes@) is None,
        },
{
    serde_json::from_slice::<String>(bytes)
}

/// Calls `serde_json::from_slice` for a `Vec<String>`. The contract claims
/// only that the outcome is a function of `bytes`, under the name
/// `json_string_list`.
#[verifier::external_body]
pub(crate) fn parse_string_list(bytes: &[u8]) -> (r: Result<Vec<String>, serde_json::Error>)
    ensures
        match r {
            Ok(list) => json_string_list(bytes@) == Some(names_view(list@)),
            Err(_) => json_string_list(bytes@) is None,
        },
{
    serde_json::from_slice::<Vec<String>>(bytes)
}

/// The text of a `serde_json::Error`, by its `Display`. Nothing is claimed
/// of it.
#[verifier::external_body]
pub(crate) fn error_message(error: &serde_json::Error) -> String {
    error.to_string()
}

} // verus!
