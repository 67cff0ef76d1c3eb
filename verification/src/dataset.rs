use crate::pubkey::{decoded_pubkey, ParseError, Pubkey2};
use vstd::prelude::*;

verus! {

/// `serde_json::Value`, one value of a JSON text.
#[verifier::external_type_specification]
#[verifier::external_body]
pub struct ExJsonValue(serde_json::Value);

/// `serde_json::Error`, the reason why a text is not the JSON that was asked for.
#[verifier::external_type_specification]
#[verifier::external_body]
pub struct ExJsonError(serde_json::Error);

/// What `serde_json::from_slice` makes of bytes when asked for an array of values:
/// the values of the array in their order, or nothing where the bytes are not a
/// JSON array.
pub uninterp spec fn json_array(bytes: Seq<u8>) -> Option<Seq<serde_json::Value>>;

/// What `Value::as_str` of serde_json gives for a value: the text of a JSON
/// string, nothing for any other value.
pub uninterp spec fn json_text(value: serde_json::Value) -> Option<Seq<char>>;

/// `serde_json::from_slice` asked for an array of values. It succeeds exactly on
/// the bytes for which `json_array` names an array, and returns that array.
#[verifier::external_body]
fn json_values(bytes: &[u8]) -> (parsed: Result<Vec<serde_json::Value>, serde_json::Error>)
    ensures
        match parsed {
            Ok(values) => json_array(bytes@) == Some(values@),
            Err(_) => json_array(bytes@) is None,
        },
{
    serde_json::from_slice(bytes)
}

/// `Value::as_str` of serde_json: the text that `json_text` names for the value.
pub assume_specification<'a>[ serde_json::Value::as_str ](value: &'a serde_json::Value) -> (text:
    Option<&'a str>)
    ensures
        match text {
            Some(text) => json_text(*value) == Some(text@),
            None => json_text(*value) is None,
        },
;

/// Why an element of a dataset does not stand for an identifier.
#[derive(Clone, Copy, Debug, PartialEq, Eq, Structural)]
pub enum ElementError {
    /// The element is not a JSON string.
    WrongType,
    /// The element is a string that does not decode to an identifier.
    Parse(ParseError),
}

/// Why bytes do not hold a dataset.
#[derive(Debug)]
pub enum DatasetError {
    /// The bytes are not a JSON array.
    Json(serde_json::Error),
    /// The element at `index` of the array does not stand for an identifier.
    Element { index: usize, error: ElementError },
}

/// The identifier that a JSON value stands for: the one that its text decodes to,
/// where the value is a string.
pub open spec fn pubkey_of_json(value: serde_json::Value) -> Result<Seq<u8>, ElementError> {
    match json_text(value) {
        Some(text) => match decoded_pubkey(text) {
            Ok(bytes) => Ok(bytes),
            Err(error) => Err(ElementError::Parse(error)),
        },
        None => Err(ElementError::WrongType),
    }
}

/// Reads an identifier from a JSON value, which has to be a string in base 58.
pub fn de_stringified_pubkey(value: &serde_json::Value) -> (parsed: Result<Pubkey2, ElementError>)
    ensures
        match parsed {
            Ok(key) => pubkey_of_json(*value) == Ok::<Seq<u8>, ElementError>(key@),
            Err(error) => pubkey_of_json(*value) == Err::<Seq<u8>, ElementError>(error),
        },
{
    match value.as_str() {
        Some(text) => match Pubkey2::parse(text) {
            Ok(key) => Ok(key),
            Err(error) => Err(ElementError::Parse(error)),
        },
        None => Err(ElementError::WrongType),
    }
}

/// Reads the identifiers of a dataset from the values of a JSON array. The first
/// value that stands for no identifier ends the reading, and is reported with its
/// place in the array.
pub fn pubkeys_from_json(values: &[serde_json::Value]) -> (parsed: Result<
    Vec<Pubkey2>,
    (usize, ElementError),
>)
    ensures
        match parsed {
            Ok(keys) => {
                &&& keys@.len() == values@.len()
                &&& forall|i: int|
                    0 <= i < values@.len() ==> pubkey_of_json(#[trigger] values@[i]) == Ok::<
                        Seq<u8>,
                        ElementError,
                    >(keys@[i]@)
            },
            Err((index, error)) => {
                &&& index < values@.len()
                &&& pubkey_of_json(values@[index as int]) == Err::<Seq<u8>, ElementError>(error)
                &&& forall|i: int| 0 <= i < index ==> pubkey_of_json(#[trigger] values@[i]) is Ok
            },
        },
{
    let mut keys: Vec<Pubkey2> = Vec::new();
    let mut i: usize = 0;
    while i < values.len()
        invariant
            i <= values.len(),
            keys@.len() == i,
            forall|j: int|
                0 <= j < i ==> pubkey_of_json(#[trigger] values@[j]) == Ok::<Seq<u8>, ElementError>(
                    keys@[j]@,
                ),
        decreases values.len() - i,
    {
        match de_stringified_pubkey(&values[i]) {
            Ok(key) => {
                keys.push(key);
            },
            Err(error) => {
                return Err((i, error));
            },
        }
        i = i + 1;
    }
    Ok(keys)
}

/// The dataset that bytes hold: the identifiers that the elements of the JSON
/// array stand for, where the bytes are a JSON array and every element stands for
/// one.
pub open spec fn holds_dataset(bytes: Seq<u8>, dataset: Seq<Seq<u8>>) -> bool {
    &&& json_array(bytes) matches Some(values)
    &&& dataset.len() == values.len()
    &&& forall|i: int|
        0 <= i < values.len() ==> pubkey_of_json(#[trigger] values[i]) == Ok::<Seq<u8>, ElementError>(
            dataset[i],
        )
}

/// Reads a dataset: a JSON array of strings, each the base-58 text of an
/// identifier.
pub fn parse_dataset(bytes: &[u8]) -> (parsed: Result<Vec<Pubkey2>, DatasetError>)
    ensures
        match parsed {
            Ok(keys) => holds_dataset(bytes@, keys@.map_values(|key: Pubkey2| key@)),
            Err(DatasetError::Json(_)) => json_array(bytes@) is None,
            Err(DatasetError::Element { index, error }) => {
                &&& json_array(bytes@) matches Some(values)
                &&& index < values.len()
                &&& pubkey_of_json(values[index as int]) == Err::<Seq<u8>, ElementError>(error)
                &&& forall|i: int| 0 <= i < index ==> pubkey_of_json(#[trigger] values[i]) is Ok
            },
        },
{
    match json_values(bytes) {
        Ok(values) => match pubkeys_from_json(values.as_slice()) {
            Ok(keys) => Ok(keys),
            Err((index, error)) => Err(DatasetError::Element { index, error }),
        },
        Err(error) => Err(DatasetError::Json(error)),
    }
}

} // verus!
