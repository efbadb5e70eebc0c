//! Integers that the API writes as strings, alone, optional, or in arrays.
use crate::json::Json;
use crate::numeric::{decimal, encode_integer, lemma_parse_decimal, parse_bounded, parse_unsigned};
use vstd::prelude::*;

verus! {

/// Why a value is not an integer string.
#[derive(Clone, Debug, PartialEq, Eq)]
pub enum NumericError {
    /// A string that is not an unsigned 64-bit integer.
    InvalidNumericString(String),
    /// A value that is not a string.
    UnexpectedValue,
}

/// The integer that a text denotes.
pub open spec fn integer_text_value(s: Seq<char>) -> Option<u64> {
    match parse_unsigned(s, u64::MAX as nat) {
        Some(v) => Some(v as u64),
        None => None,
    }
}

/// The integer that a value denotes when it is an integer string.
pub open spec fn integer_str_of(j: Json) -> Option<u64> {
    match j {
        Json::Str(s) => integer_text_value(s@),
        _ => None,
    }
}

/// Whether `e` is the error of reading `j` as an integer string.
pub open spec fn integer_str_error(j: Json, e: NumericError) -> bool {
    match j {
        Json::Str(s) => e matches NumericError::InvalidNumericString(t) && t@ == s@,
        _ => e is UnexpectedValue,
    }
}

/// Whether a value is the string `s`.
pub open spec fn is_text(j: Json, s: Seq<char>) -> bool {
    j matches Json::Str(t) && t@ == s
}

/// Whether every element of an array is an integer string.
pub open spec fn all_integer_strs(items: Seq<Json>) -> bool {
    forall|i: int| 0 <= i < items.len() ==> (#[trigger] integer_str_of(items[i])) is Some
}

/// Reading the text of an integer gives back that integer.
pub proof fn lemma_integer_str_round_trip(n: u64)
    ensures
        integer_text_value(decimal(n as nat)) == Some(n),
{
    lemma_parse_decimal(n as nat, u64::MAX as nat);
}

/// Reads an integer string.
pub fn decode_integer_str(j: &Json) -> (r: Result<u64, NumericError>)
    ensures
        match r {
            Ok(v) => integer_str_of(*j) == Some(v),
            Err(e) => integer_str_of(*j) is None && integer_str_error(*j, e),
        },
{
    match j {
        Json::Str(s) => match parse_bounded(s.as_str(), u64::MAX) {
            Some(v) => Ok(v),
            None => Err(NumericError::InvalidNumericString(s.clone())),
        },
        _ => Err(NumericError::UnexpectedValue),
    }
}

/// Writes an integer string.
pub fn encode_integer_str(n: u64) -> (r: Json)
    ensures
        r matches Json::Str(s) && s@ == decimal(n as nat),
{
    Json::Str(encode_integer(n))
}

/// Reads an optional integer string: absent or null is `None`.
pub fn decode_optional_integer_str(j: Option<&Json>) -> (r: Result<Option<u64>, NumericError>)
    ensures
        match j {
            None => r == Ok::<Option<u64>, NumericError>(None),
            Some(Json::Null) => r == Ok::<Option<u64>, NumericError>(None),
            Some(v) => match r {
                Ok(Some(n)) => integer_str_of(*v) == Some(n),
                Ok(None) => false,
                Err(e) => integer_str_of(*v) is None && integer_str_error(*v, e),
            },
        },
{
    match j {
        None => Ok(None),
        Some(Json::Null) => Ok(None),
        Some(v) => match decode_integer_str(v) {
            Ok(n) => Ok(Some(n)),
            Err(e) => Err(e),
        },
    }
}

/// Writes an optional integer string: `None` is null.
pub fn encode_optional_integer_str(n: Option<u64>) -> (r: Json)
    ensures
        match n {
            Some(n) => r matches Json::Str(s) && s@ == decimal(n as nat),
            None => r is Null,
        },
{
    match n {
        Some(n) => encode_integer_str(n),
        None => Json::Null,
    }
}

/// Reads an array of integer strings. One element that is not an integer
/// string fails the whole array, with the error of the first such element.
pub fn decode_integer_str_array(j: &Json) -> (r: Result<Vec<u64>, NumericError>)
    ensures
        match j {
            Json::Array(items) => match r {
                Ok(vs) => all_integer_strs(items@) && vs@.len() == items@.len() && forall|i: int|
                    0 <= i < vs@.len() ==> Some(#[trigger] vs@[i]) == integer_str_of(items@[i]),
                Err(e) => exists|i: int|
                    0 <= i < items@.len() && all_integer_strs(items@.subrange(0, i))
                        && integer_str_of(#[trigger] items@[i]) is None && integer_str_error(
                        items@[i],
                        e,
                    ),
            },
            _ => r == Err::<Vec<u64>, NumericError>(NumericError::UnexpectedValue),
        },
{
    let items = match j {
        Json::Array(items) => items,
        _ => return Err(NumericError::UnexpectedValue),
    };
    let mut out: Vec<u64> = Vec::new();
    let mut i: usize = 0;
    while i < items.len()
        invariant
            *j == Json::Array(*items),
            i <= items@.len(),
            out@.len() == i,
            all_integer_strs(items@.subrange(0, i as int)),
            forall|k: int| 0 <= k < i ==> Some(#[trigger] out@[k]) == integer_str_of(items@[k]),
        decreases items@.len() - i,
    {
        match decode_integer_str(&items[i]) {
            Ok(v) => {
                out.push(v);
            },
            Err(e) => {
                assert(integer_str_of(items@[i as int]) is None);
                return Err(e);
            },
        }
        assert forall|k: int| 0 <= k < i + 1 implies (#[trigger] integer_str_of(
            items@.subrange(0, i + 1)[k],
        )) is Some by {
            if k < i {
                assert(items@.subrange(0, i + 1)[k] == items@.subrange(0, i as int)[k]);
            }
        }
        i = i + 1;
    }
    assert(items@.subrange(0, items@.len() as int) =~= items@);
    Ok(out)
}

/// Writes an array of integer strings.
pub fn encode_integer_str_array(values: &Vec<u64>) -> (r: Json)
    ensures
        r matches Json::Array(items) && items@.len() == values@.len() && forall|i: int|
            0 <= i < values@.len() ==> is_text(#[trigger] items@[i], decimal(values@[i] as nat)),
{
    let mut items: Vec<Json> = Vec::new();
    let mut i: usize = 0;
    while i < values.len()
        invariant
            i <= values@.len(),
            items@.len() == i,
            forall|k: int|
                0 <= k < i ==> is_text(#[trigger] items@[k], decimal(values@[k] as nat)),
        decreases values@.len() - i,
    {
        items.push(encode_integer_str(values[i]));
        i = i + 1;
    }
    Json::Array(items)
}

/// Reads an optional array of integer strings: absent or null is `None`.
pub fn decode_optional_integer_str_array(j: Option<&Json>) -> (r: Result<Option<Vec<u64>>, NumericError>)
    ensures
        match j {
            None => r matches Ok(None),
            Some(Json::Null) => r matches Ok(None),
            Some(Json::Array(items)) => match r {
                Ok(Some(vs)) => all_integer_strs(items@) && vs@.len() == items@.len() && forall|i: int|
                    0 <= i < vs@.len() ==> Some(#[trigger] vs@[i]) == integer_str_of(items@[i]),
                Ok(None) => false,
                Err(_) => !all_integer_strs(items@),
            },
            Some(_) => r == Err::<Option<Vec<u64>>, NumericError>(NumericError::UnexpectedValue),
        },
{
    match j {
        None => Ok(None),
        Some(Json::Null) => Ok(None),
        Some(v) => match decode_integer_str_array(v) {
            Ok(vs) => Ok(Some(vs)),
            Err(e) => Err(e),
        },
    }
}

} // verus!
